//! The calls into `hex`, `uuid`, and `cel` that the engine makes.
use vstd::arithmetic::power::pow;
use vstd::prelude::*;
use vstd::string::*;

verus! {

/// A value below sixteen as a lower-case hexadecimal digit.
pub open spec fn hex_digit(n: int) -> char {
    if n < 10 {
        (48 + n) as char
    } else {
        (87 + n) as char
    }
}

/// Bytes in lower-case hexadecimal, high nibble first.
pub open spec fn hex_text(bytes: Seq<u8>) -> Seq<char> {
    Seq::new(
        2 * bytes.len(),
        |i: int|
            hex_digit(
                if i % 2 == 0 {
                    bytes[i / 2] as int / 16
                } else {
                    bytes[i / 2] as int % 16
                },
            ),
    )
}

/// Calls `hex::encode`.
#[verifier::external_body]
pub(crate) fn hex_encode(bytes: &Vec<u8>) -> (r: String)
    ensures
        r@ == hex_text(bytes@),
{
    hex::encode(bytes)
}

/// How many hyphens stand before position `i` of a hyphenated UUID.
pub open spec fn uuid_hyphens_before(i: int) -> int {
    if i <= 8 {
        0
    } else if i <= 13 {
        1
    } else if i <= 18 {
        2
    } else if i <= 23 {
        3
    } else {
        4
    }
}

/// A UUID in hyphenated form: lower-case hexadecimal, most significant digit
/// first, in groups of 8, 4, 4, 4, and 12 digits.
pub open spec fn uuid_text(id: u128) -> Seq<char> {
    Seq::new(
        36,
        |i: int|
            if i == 8 || i == 13 || i == 18 || i == 23 {
                '-'
            } else {
                hex_digit((id as int / pow(16, (31 - (i - uuid_hyphens_before(i))) as nat)) % 16)
            },
    )
}

/// Calls `Uuid::to_string` on the UUID with the given 128-bit value.
#[verifier::external_body]
pub(crate) fn uuid_to_string(id: u128) -> (r: String)
    ensures
        r@ == uuid_text(id),
{
    uuid::Uuid::from_u128(id).to_string()
}

/// The columns of the errors with which a CEL expression fails to compile, or
/// nothing when it compiles.
pub uninterp spec fn cel_error_columns(source: Seq<char>) -> Option<Seq<int>>;

/// The text of the errors with which a CEL expression fails to compile.
pub uninterp spec fn cel_error_text(source: Seq<char>) -> Seq<char>;

/// The variables that a CEL expression refers to.
pub uninterp spec fn cel_variables(source: Seq<char>) -> Set<Seq<char>>;

/// The columns as mathematical integers.
pub open spec fn as_ints(columns: Seq<isize>) -> Seq<int> {
    columns.map_values(|column: isize| column as int)
}

/// Calls `cel::Program::compile` and, on a program, `Program::references` and
/// `ExpressionReferences::variables`: the names of the variables, each once,
/// in no particular order, or the column of each compile error, as its field
/// `pos` has it. Nesting is bounded by the compiler; on how long a chain of
/// operators the machine's stack suffices, nothing is said.
#[verifier::external_body]
pub(crate) fn cel_referenced_variables(source: &str) -> (r: Result<Vec<String>, Vec<isize>>)
    ensures
        r is Ok <==> cel_error_columns(source@) is None,
        r matches Err(columns) ==> cel_error_columns(source@) == Some(as_ints(columns@)),
        r matches Ok(names) ==> forall|name: Seq<char>|
            #![trigger cel_variables(source@).contains(name)]
            cel_variables(source@).contains(name) <==> exists|i: int|
                0 <= i < names@.len() && (#[trigger] names@[i])@ == name,
        r matches Ok(names) ==> forall|i: int, j: int|
            #![trigger names@[i], names@[j]]
            0 <= i < j < names@.len() ==> names@[i]@ != names@[j]@,
{
    match cel::Program::compile(source) {
        Ok(program) => {
            let references = program.references();
            Ok(references.variables().into_iter().map(str::to_string).collect())
        },
        Err(err) => Err(err.errors.iter().map(|error| error.pos.1).collect()),
    }
}

/// The widest column under which the text of a compile error can be written: it
/// ends in a line that points at the column, padded to that width.
pub const MAX_CARET_COLUMN: isize = 65_535;

/// Every column is one under which the text of a compile error can be written.
pub open spec fn carets_fit(columns: Seq<int>) -> bool {
    forall|i: int| 0 <= i < columns.len() ==> 0 <= #[trigger] columns[i] <= 65_535
}

/// Calls `ParseErrors::to_string` on what `cel::Program::compile` gives for the
/// expression; nothing for one that compiles. The text pads a line to the
/// column of each error, and formatting panics on a width above 65535: such
/// expressions are left out.
#[verifier::external_body]
pub(crate) fn cel_errors_to_string(source: &str) -> (r: Option<String>)
    requires
        cel_error_columns(source@) matches Some(columns) ==> carets_fit(columns),
    ensures
        match r {
            Some(text) => cel_error_columns(source@) is Some && text@ == cel_error_text(source@),
            None => cel_error_columns(source@) is None,
        },
{
    cel::Program::compile(source).err().map(|errors| errors.to_string())
}

} // verus!
