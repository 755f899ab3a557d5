//! Callbacks: checking their expressions, polling them, and taking their
//! results.
use crate::error;
use crate::error::AwaError;
use crate::job::JobState;
use crate::json;
use crate::outside;
use crate::rows::AttemptStateRow;
use crate::text;
use serde_json::Value;
use vstd::prelude::*;
use vstd::string::*;

verus! {

/// The expressions that decide what a callback does to its job.
#[derive(Debug)]
pub struct CallbackConfig {
    pub filter: Option<String>,
    pub on_complete: Option<String>,
    pub on_fail: Option<String>,
    pub transform: Option<String>,
}

impl CallbackConfig {
    pub fn is_empty(&self) -> (r: bool)
        ensures
            r == (self.filter is None && self.on_complete is None && self.on_fail is None
                && self.transform is None),
    {
        self.filter.is_none() && self.on_complete.is_none() && self.on_fail.is_none()
            && self.transform.is_none()
    }

    /// The expressions with their names, in the order in which they are
    /// checked.
    pub open spec fn expressions(self) -> Seq<(Seq<char>, Option<String>)> {
        seq![
            ("filter"@, self.filter),
            ("on_complete"@, self.on_complete),
            ("on_fail"@, self.on_fail),
            ("transform"@, self.transform),
        ]
    }
}

/// The texts one after the other, with a comma and a space between.
pub open spec fn listed(items: Seq<String>) -> Seq<char>
    decreases items.len(),
{
    if items.len() == 0 {
        Seq::empty()
    } else if items.len() == 1 {
        items[0]@
    } else {
        listed(items.drop_last()) + ", "@ + items.last()@
    }
}

fn list(items: &Vec<String>) -> (s: String)
    ensures
        s@ == listed(items@),
{
    let mut s = "".to_owned();
    proof {
        reveal_strlit("");
        assert(""@ =~= Seq::empty());
        assert(items@.subrange(0, 0) =~= Seq::empty());
    }
    let mut i: usize = 0;
    while i < items.len()
        invariant
            i <= items@.len(),
            s@ == listed(items@.subrange(0, i as int)),
        decreases items.len() - i,
    {
        proof {
            let next = items@.subrange(0, i + 1);
            assert(next.drop_last() =~= items@.subrange(0, i as int));
            assert(next.last() == items@[i as int]);
            assert(i == 0 ==> s@ + items@[0]@ =~= items@[0]@);
            assert(i == 0 ==> next[0] == items@[0]);
        }
        if i > 0 {
            s = s.concat(", ");
        }
        s = s.concat(items[i].as_str());
        i = i + 1;
    }
    assert(items@.subrange(0, items@.len() as int) =~= items@);
    s
}

/// The text for an expression that does not compile.
pub open spec fn compile_error_text(name: Seq<char>, fault: Seq<char>) -> Seq<char> {
    "invalid CEL expression for "@ + name + ": "@ + fault
}

/// The text for an expression that refers to variables that it cannot have.
pub open spec fn undeclared_text(name: Seq<char>, undeclared: Seq<String>) -> Seq<char> {
    "CEL expression for "@ + name + " references undeclared variable(s): "@ + listed(undeclared)
        + "; only 'payload' is available"@
}

/// Judges an expression by what compiling it gave: the variables that it refers
/// to, or the reason why it does not compile. It may refer to the payload only.
pub fn judge_expression(name: &str, compiled: Result<Vec<String>, String>) -> (r: Result<
    (),
    AwaError,
>)
    ensures
        match compiled {
            Err(fault) => r matches Err(err) && error::is_validation(
                err,
                compile_error_text(name@, fault@),
            ),
            Ok(variables) => {
                let undeclared = variables@.filter(|v: String| v@ != "payload"@);
                if undeclared.len() == 0 {
                    r is Ok
                } else {
                    r matches Err(err) && error::is_validation(
                        err,
                        undeclared_text(name@, undeclared),
                    )
                }
            },
        },
{
    let variables = match compiled {
        Err(fault) => {
            let text = "invalid CEL expression for ".to_owned().concat(name).concat(": ").concat(
                fault.as_str(),
            );
            return Err(AwaError::Validation(text));
        },
        Ok(variables) => variables,
    };
    let ghost all = variables@;
    let ghost bad = |v: String| v@ != "payload"@;
    let mut undeclared: Vec<String> = Vec::new();
    proof {
        reveal(Seq::filter);
        assert(all.subrange(0, 0).filter(bad) =~= Seq::empty());
    }
    for variable in it: variables
        invariant
            it.seq() == all,
            bad == (|v: String| v@ != "payload"@),
            undeclared@ == all.subrange(0, it.index()).filter(bad),
    {
        assert(variable == all[it.index()]);
        proof {
            reveal(Seq::filter);
            let next = all.subrange(0, it.index() + 1);
            assert(next.drop_last() =~= all.subrange(0, it.index()));
            assert(next.last() == variable);
        }
        if !text::same_text(variable.as_str(), "payload") {
            undeclared.push(variable);
        }
    }
    assert(all.subrange(0, all.len() as int) =~= all);
    if undeclared.len() == 0 {
        return Ok(());
    }
    let text = "CEL expression for ".to_owned().concat(name).concat(
        " references undeclared variable(s): ",
    ).concat(list(&undeclared).as_str()).concat("; only 'payload' is available");
    Err(AwaError::Validation(text))
}

/// The expression compiles and refers to the payload at most.
pub open spec fn is_sound(source: Seq<char>) -> bool {
    &&& outside::cel_error_columns(source) is None
    &&& forall|name: Seq<char>| #[trigger]
        outside::cel_variables(source).contains(name) ==> name == "payload"@
}

/// `undeclared` lists, each once, the variables of the expression that it
/// cannot have.
pub open spec fn lists_undeclared(source: Seq<char>, undeclared: Seq<String>) -> bool {
    &&& forall|name: Seq<char>|
        outside::cel_variables(source).contains(name) && name != "payload"@ <==> exists|i: int|
            0 <= i < undeclared.len() && (#[trigger] undeclared[i])@ == name
    &&& forall|i: int, j: int|
        #![trigger undeclared[i], undeclared[j]]
        0 <= i < j < undeclared.len() ==> undeclared[i]@ != undeclared[j]@
}

/// The expression compiles, or its compile errors can be put into words.
pub open spec fn is_reportable(source: Seq<char>) -> bool {
    outside::cel_error_columns(source) matches Some(columns) ==> outside::carets_fit(columns)
}

/// `err` is the objection to the expression.
pub open spec fn objects_to(name: Seq<char>, source: Seq<char>, err: AwaError) -> bool {
    match outside::cel_error_columns(source) {
        Some(_) => error::is_validation(
            err,
            compile_error_text(name, outside::cel_error_text(source)),
        ),
        None => exists|undeclared: Seq<String>| #[trigger]
            lists_undeclared(source, undeclared) && undeclared.len() > 0 && error::is_validation(
                err,
                undeclared_text(name, undeclared),
            ),
    }
}

proof fn lemma_filter_lists(all: Seq<String>, keep: spec_fn(String) -> bool)
    requires
        forall|i: int, j: int|
            #![trigger all[i], all[j]]
            0 <= i < j < all.len() ==> all[i]@ != all[j]@,
    ensures
        forall|k: int|
            0 <= k < all.filter(keep).len() ==> keep(#[trigger] all.filter(keep)[k])
                && all.contains(all.filter(keep)[k]),
        forall|i: int|
            0 <= i < all.len() && keep(#[trigger] all[i]) ==> all.filter(keep).contains(all[i]),
        forall|i: int, j: int|
            #![trigger all.filter(keep)[i], all.filter(keep)[j]]
            0 <= i < j < all.filter(keep).len() ==> all.filter(keep)[i]@ != all.filter(keep)[j]@,
    decreases all.len(),
{
    reveal(Seq::filter);
    if all.len() > 0 {
        let rest = all.drop_last();
        assert forall|i: int, j: int|
            #![trigger rest[i], rest[j]]
            0 <= i < j < rest.len() implies rest[i]@ != rest[j]@ by {
            assert(all[i]@ != all[j]@);
        }
        lemma_filter_lists(rest, keep);
        let kept = rest.filter(keep);
        let out = all.filter(keep);
        assert forall|k: int| 0 <= k < out.len() implies keep(#[trigger] out[k]) && all.contains(
            out[k],
        ) by {
            if k < kept.len() {
                assert(out[k] == kept[k]);
                assert(rest.contains(kept[k]));
                let i = choose|i: int| 0 <= i < rest.len() && rest[i] == kept[k];
                assert(all[i] == out[k]);
            } else {
                assert(out[k] == all[all.len() - 1]);
            }
        }
        assert forall|i: int| 0 <= i < all.len() && keep(#[trigger] all[i]) implies out.contains(
            all[i],
        ) by {
            if i < rest.len() {
                assert(rest[i] == all[i]);
                assert(kept.contains(all[i]));
                let k = choose|k: int| 0 <= k < kept.len() && kept[k] == all[i];
                assert(out[k] == all[i]);
            } else {
                assert(out[kept.len() as int] == all[i]);
            }
        }
        assert forall|i: int, j: int|
            #![trigger out[i], out[j]]
            0 <= i < j < out.len() implies out[i]@ != out[j]@ by {
            if j < kept.len() {
                assert(kept[i]@ != kept[j]@);
            } else {
                assert(rest.contains(kept[i]));
                let at = choose|at: int| 0 <= at < rest.len() && rest[at] == kept[i];
                assert(all[at]@ != all[all.len() - 1]@);
            }
        }
    }
}

/// `names` lists the variables of the expression, each once.
pub open spec fn lists_variables(source: Seq<char>, names: Seq<String>) -> bool {
    &&& forall|name: Seq<char>|
        #![trigger outside::cel_variables(source).contains(name)]
        outside::cel_variables(source).contains(name) <==> exists|i: int|
            0 <= i < names.len() && (#[trigger] names[i])@ == name
    &&& forall|i: int, j: int|
        #![trigger names[i], names[j]]
        0 <= i < j < names.len() ==> names[i]@ != names[j]@
}

fn all_carets_fit(columns: &Vec<isize>) -> (r: bool)
    ensures
        r == outside::carets_fit(outside::as_ints(columns@)),
{
    let ghost seen = outside::as_ints(columns@);
    let mut i: usize = 0;
    while i < columns.len()
        invariant
            i <= columns@.len(),
            seen == outside::as_ints(columns@),
            forall|k: int| 0 <= k < i ==> 0 <= #[trigger] seen[k] <= 65_535,
        decreases columns.len() - i,
    {
        assert(seen[i as int] == columns@[i as int]);
        if columns[i] < 0 || columns[i] > outside::MAX_CARET_COLUMN {
            return false;
        }
        i = i + 1;
    }
    true
}

/// Compiles an expression: the variables that it refers to, or the text of its
/// compile errors. There is nothing to hand out when that text cannot be
/// written.
fn compile(source: &str) -> (r: Option<Result<Vec<String>, String>>)
    ensures
        r is Some <==> is_reportable(source@),
        r matches Some(Err(text)) ==> outside::cel_error_columns(source@) is Some && text@
            == outside::cel_error_text(source@),
        r matches Some(Ok(names)) ==> outside::cel_error_columns(source@) is None
            && lists_variables(source@, names@),
{
    match outside::cel_referenced_variables(source) {
        Ok(names) => {
            assert(lists_variables(source@, names@));
            Some(Ok(names))
        },
        Err(columns) => {
            if !all_carets_fit(&columns) {
                return None;
            }
            match outside::cel_errors_to_string(source) {
                Some(text) => Some(Err(text)),
                None => None,
            }
        },
    }
}

/// Checks one expression. An expression whose compile errors cannot be put into
/// words gets no verdict.
pub fn check_expression(name: &str, source: &str) -> (r: Option<Result<(), AwaError>>)
    ensures
        match r {
            Some(Ok(_)) => is_sound(source@),
            Some(Err(err)) => !is_sound(source@) && is_reportable(source@) && objects_to(
                name@,
                source@,
                err,
            ),
            None => !is_reportable(source@),
        },
{
    let compiled = match compile(source) {
        Some(compiled) => compiled,
        None => return None,
    };
    let ghost given = compiled;
    let r = judge_expression(name, compiled);
    proof {
        if let Ok(variables) = given {
            let bad = |v: String| v@ != "payload"@;
            let undeclared = variables@.filter(bad);
            lemma_filter_lists(variables@, bad);
            assert(lists_undeclared(source@, undeclared)) by {
                assert forall|name: Seq<char>|
                    outside::cel_variables(source@).contains(name) && name != "payload"@
                        <==> exists|i: int|
                        0 <= i < undeclared.len() && (#[trigger] undeclared[i])@ == name by {
                    if outside::cel_variables(source@).contains(name) && name != "payload"@ {
                        let i = choose|i: int|
                            0 <= i < variables@.len() && (#[trigger] variables@[i])@ == name;
                        assert(bad(variables@[i]));
                        assert(undeclared.contains(variables@[i]));
                        let k = choose|k: int|
                            0 <= k < undeclared.len() && undeclared[k] == variables@[i];
                        assert(undeclared[k]@ == name);
                    }
                    if exists|i: int|
                        0 <= i < undeclared.len() && (#[trigger] undeclared[i])@ == name {
                        let k = choose|i: int|
                            0 <= i < undeclared.len() && (#[trigger] undeclared[i])@ == name;
                        assert(bad(undeclared[k]) && variables@.contains(undeclared[k]));
                        let i = choose|i: int|
                            0 <= i < variables@.len() && variables@[i] == undeclared[k];
                        assert(variables@[i]@ == name);
                    }
                }
            }
            if undeclared.len() == 0 {
                assert(is_sound(source@)) by {
                    assert forall|name: Seq<char>| #[trigger]
                        outside::cel_variables(source@).contains(name) implies name
                        == "payload"@ by {
                        if name != "payload"@ {
                            let k = choose|i: int|
                                0 <= i < undeclared.len() && (#[trigger] undeclared[i])@ == name;
                        }
                    }
                }
            } else {
                let name = undeclared[0]@;
                assert(undeclared[0]@ == name);
                assert(outside::cel_variables(source@).contains(name) && name != "payload"@);
            }
        }
    }
    Some(r)
}

fn check_optional(name: &str, source: &Option<String>) -> (r: Option<Result<(), AwaError>>)
    ensures
        match r {
            Some(Ok(_)) => passes(*source),
            Some(Err(err)) => !passes(*source) && is_reportable(source->0@) && objects_to(
                name@,
                source->0@,
                err,
            ),
            None => !passes(*source) && !is_reportable(source->0@),
        },
{
    match source {
        Some(source) => check_expression(name, source.as_str()),
        None => Some(Ok(())),
    }
}

/// The expression is absent or sound.
pub open spec fn passes(source: Option<String>) -> bool {
    source matches Some(text) ==> is_sound(text@)
}

/// The expression at `i` is the first, by the order of the configuration, that
/// is not sound.
pub open spec fn is_first_unsound(config: CallbackConfig, i: int) -> bool {
    &&& 0 <= i < 4
    &&& !passes(config.expressions()[i].1)
    &&& forall|j: int| 0 <= j < i ==> passes((#[trigger] config.expressions()[j]).1)
}

/// Checks the expressions of a configuration: the first that is not sound, by
/// the order of the configuration, is objected to. There is no verdict when its
/// compile errors cannot be put into words.
pub fn check_callback_config(config: &CallbackConfig) -> (r: Option<Result<(), AwaError>>)
    ensures
        match r {
            Some(Ok(_)) => forall|i: int|
                0 <= i < 4 ==> passes((#[trigger] config.expressions()[i]).1),
            Some(Err(err)) => exists|i: int| #[trigger]
                is_first_unsound(*config, i) && is_reportable(config.expressions()[i].1->0@)
                    && objects_to(
                    config.expressions()[i].0,
                    config.expressions()[i].1->0@,
                    err,
                ),
            None => exists|i: int| #[trigger]
                is_first_unsound(*config, i) && !is_reportable(config.expressions()[i].1->0@),
        },
{
    let ghost all = config.expressions();
    match check_optional("filter", &config.filter) {
        Some(Ok(_)) => {},
        other => {
            assert(!passes(all[0].1));
            assert(is_first_unsound(*config, 0));
            return other;
        },
    }
    assert(passes(all[0].1));
    match check_optional("on_complete", &config.on_complete) {
        Some(Ok(_)) => {},
        other => {
            assert(!passes(all[1].1));
            assert(is_first_unsound(*config, 1));
            return other;
        },
    }
    assert(passes(all[1].1));
    match check_optional("on_fail", &config.on_fail) {
        Some(Ok(_)) => {},
        other => {
            assert(!passes(all[2].1));
            assert(is_first_unsound(*config, 2));
            return other;
        },
    }
    assert(passes(all[2].1));
    match check_optional("transform", &config.transform) {
        Some(Ok(_)) => {},
        other => {
            assert(!passes(all[3].1));
            assert(is_first_unsound(*config, 3));
            return other;
        },
    }
    Some(Ok(()))
}

/// Judges the registration of a callback: without a row that was changed, the
/// job does not run under that lease.
pub fn check_registered(rows_affected: u64) -> (r: Result<(), AwaError>)
    ensures
        match r {
            Ok(_) => rows_affected != 0,
            Err(err) => rows_affected == 0 && error::is_validation(
                err,
                "job is not in running state"@,
            ),
        },
{
    if rows_affected == 0 {
        Err(error::validation("job is not in running state"))
    } else {
        Ok(())
    }
}

/// The error for a callback that no parked attempt answers to.
pub fn callback_not_found(callback_id: u128) -> (err: AwaError)
    ensures
        error::is_callback_not_found(err, outside::uuid_text(callback_id)),
{
    AwaError::CallbackNotFound { callback_id: outside::uuid_to_string(callback_id) }
}

/// What a poll of a callback finds.
#[derive(Debug)]
pub enum CallbackPollResult {
    Resolved(Value),
    Pending,
    /// The job waits for another callback.
    Stale { token: u128, current: u128, state: JobState },
    UnexpectedState { token: u128, state: JobState },
    NotFound,
}

/// The job's latest lease, as a poll sees it.
#[derive(Debug, Clone, Copy, PartialEq, Eq, Structural)]
pub struct PolledLease {
    pub state: JobState,
    pub callback_id: Option<u128>,
    pub run_lease: i64,
    pub has_result: bool,
}

/// What a poll does next.
#[derive(Debug)]
pub enum PollStep {
    /// Take the delivered result of this attempt.
    TakeResult { run_lease: i64 },
    /// Look the job up: it has no lease.
    LoadJob,
    Done(CallbackPollResult),
}

/// Decides a poll by the job's latest lease: a result that was delivered is
/// taken, another callback makes the token stale, and the callback itself is
/// pending while the job is parked.
pub fn poll_callback(lease: Option<PolledLease>, token: u128) -> (r: PollStep)
    ensures
        match lease {
            None => r is LoadJob,
            Some(l) => if l.state == JobState::Running && l.callback_id is None && l.has_result {
                r == (PollStep::TakeResult { run_lease: l.run_lease })
            } else if l.callback_id is Some && l.callback_id != Some(token) {
                r == PollStep::Done(
                    CallbackPollResult::Stale { token, current: l.callback_id->0, state: l.state },
                )
            } else if l.state == JobState::WaitingExternal && l.callback_id == Some(token) {
                r == PollStep::Done(CallbackPollResult::Pending)
            } else {
                r == PollStep::Done(CallbackPollResult::UnexpectedState { token, state: l.state })
            },
        },
{
    let lease = match lease {
        Some(lease) => lease,
        None => return PollStep::LoadJob,
    };
    match lease.callback_id {
        None => {
            if lease.state == JobState::Running && lease.has_result {
                return PollStep::TakeResult { run_lease: lease.run_lease };
            }
        },
        Some(current) => {
            if current != token {
                return PollStep::Done(
                    CallbackPollResult::Stale { token, current, state: lease.state },
                );
            }
            if lease.state == JobState::WaitingExternal {
                return PollStep::Done(CallbackPollResult::Pending);
            }
        },
    }
    PollStep::Done(CallbackPollResult::UnexpectedState { token, state: lease.state })
}

/// What a poll finds for a job without a lease.
pub fn poll_without_lease(state: Option<JobState>, token: u128) -> (r: CallbackPollResult)
    ensures
        r == (match state {
            Some(state) => CallbackPollResult::UnexpectedState { token, state },
            None => CallbackPollResult::NotFound,
        }),
{
    match state {
        Some(state) => CallbackPollResult::UnexpectedState { token, state },
        None => CallbackPollResult::NotFound,
    }
}

/// What is left to do with the attempt state once its result was taken.
#[derive(Debug, Clone, Copy, PartialEq, Eq, Structural)]
pub enum Leftover {
    /// There is no row.
    Nothing,
    /// The row holds nothing else and goes.
    Delete,
    /// The row holds more and loses the result only.
    Clear,
}

/// Takes the result that a callback delivered; without one it is null.
pub fn take_callback_result(row: Option<AttemptStateRow>) -> (r: (Value, Leftover))
    ensures
        match row {
            None => json::node(r.0) is Null && r.1 == Leftover::Nothing,
            Some(state) => {
                &&& match state.callback_result {
                    Some(result) => r.0 == result,
                    None => json::node(r.0) is Null,
                }
                &&& r.1 == (if state.progress is None && state.callback_filter is None
                    && state.callback_on_complete is None && state.callback_on_fail is None
                    && state.callback_transform is None {
                    Leftover::Delete
                } else {
                    Leftover::Clear
                })
            },
        },
{
    let state = match row {
        Some(state) => state,
        None => return (json::null(), Leftover::Nothing),
    };
    let bare = state.progress.is_none() && state.callback_filter.is_none()
        && state.callback_on_complete.is_none() && state.callback_on_fail.is_none()
        && state.callback_transform.is_none();
    let result = match state.callback_result {
        Some(result) => result,
        None => json::null(),
    };
    let leftover = if bare {
        Leftover::Delete
    } else {
        Leftover::Clear
    };
    (result, leftover)
}

/// The lock that a lookup of a parked attempt takes.
pub fn callback_lock_clause(for_update: bool) -> (s: &'static str)
    ensures
        s@ == (if for_update {
            "FOR UPDATE OF lease"@
        } else {
            ""@
        }),
{
    if for_update {
        "FOR UPDATE OF lease"
    } else {
        ""
    }
}

} // verus!
