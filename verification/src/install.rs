//! Installing the tables of the engine, and resetting them.
use crate::error;
use crate::error::AwaError;
use crate::ring;
use crate::text;
use vstd::prelude::*;
use vstd::string::*;

verus! {

/// The lock under which a schema is installed.
pub fn install_lock_name(schema: &str) -> (s: String)
    ensures
        s@ == "awa.queue_storage.install:"@ + schema@,
{
    "awa.queue_storage.install:".to_owned().concat(schema)
}

/// The lock under which the terminal counters of a schema are rebuilt.
pub fn rebuild_lock_name(schema: &str) -> (s: String)
    ensures
        s@ == "awa.queue_storage.rebuild_terminal_counters:"@ + schema@,
{
    "awa.queue_storage.rebuild_terminal_counters:".to_owned().concat(schema)
}

/// The lock under which a lane is set up.
pub fn lane_lock_key(schema: &str, queue: &str, priority: i16, enqueue_shard: i16) -> (s: String)
    ensures
        s@ == schema@ + ":"@ + queue@ + ":"@ + text::int_text(priority as int) + ":"@
            + text::int_text(enqueue_shard as int),
{
    schema.to_owned().concat(":").concat(queue).concat(":").concat(
        text::i64_text(priority as i64).as_str(),
    ).concat(":").concat(text::i64_text(enqueue_shard as i64).as_str())
}

/// A statement of an installation.
#[derive(Debug, Clone, Copy, PartialEq, Eq, Structural)]
pub enum InstallStatement {
    CreateSchema,
    DropOpenReceiptClaims,
    /// Move an unpartitioned claim table aside.
    SetClaimsAside,
    /// Move an unpartitioned closure table aside.
    SetClosuresAside,
    DropCountSnapshots,
    /// Create what is missing of the engine's tables; binds the schema and its
    /// layout.
    InstallSubstrate,
    /// Tune the receipt tables; binds the schema.
    TuneReceiptPlane,
    AddClaimShard,
    AddClaimDeadline,
    /// Copy the claims back; binds the slot they go to.
    CopyClaims,
    DropClaimsAside,
    /// Copy the closures back; binds the slot they go to.
    CopyClosures,
    DropClosuresAside,
}

impl InstallStatement {
    /// The statement's text.
    pub open spec fn text(self, schema: Seq<char>) -> Seq<char> {
        match self {
            InstallStatement::CreateSchema => "CREATE SCHEMA IF NOT EXISTS "@ + schema,
            InstallStatement::DropOpenReceiptClaims => "DROP TABLE IF EXISTS "@ + schema + ".open_receipt_claims CASCADE"@,
            InstallStatement::SetClaimsAside => "ALTER TABLE "@ + schema + ".lease_claims RENAME TO lease_claims_legacy"@,
            InstallStatement::SetClosuresAside => "ALTER TABLE "@ + schema + ".lease_claim_closures RENAME TO lease_claim_closures_legacy"@,
            InstallStatement::DropCountSnapshots => "DROP TABLE IF EXISTS "@ + schema + ".queue_count_snapshots"@,
            InstallStatement::InstallSubstrate => "SELECT awa.install_queue_storage_substrate($1, $2, $3, $4, $5)"@,
            InstallStatement::TuneReceiptPlane => "SELECT awa.apply_receipt_plane_fillfactor($1)"@,
            InstallStatement::AddClaimShard => "ALTER TABLE "@ + schema + ".lease_claims_legacy ADD COLUMN IF NOT EXISTS enqueue_shard SMALLINT NOT NULL DEFAULT 0"@,
            InstallStatement::AddClaimDeadline => "ALTER TABLE "@ + schema + ".lease_claims_legacy ADD COLUMN IF NOT EXISTS deadline_at TIMESTAMPTZ"@,
            InstallStatement::CopyClaims => "INSERT INTO "@ + schema + ".lease_claims (claim_slot, job_id, run_lease, ready_slot, ready_generation, queue, priority, attempt, max_attempts, lane_seq, enqueue_shard, claimed_at, materialized_at, deadline_at) SELECT $1, job_id, run_lease, ready_slot, ready_generation, queue, priority, attempt, max_attempts, lane_seq, enqueue_shard, claimed_at, materialized_at, deadline_at FROM "@ + schema + ".lease_claims_legacy ON CONFLICT (claim_slot, job_id, run_lease) DO NOTHING"@,
            InstallStatement::DropClaimsAside => "DROP TABLE "@ + schema + ".lease_claims_legacy"@,
            InstallStatement::CopyClosures => "INSERT INTO "@ + schema + ".lease_claim_closures (claim_slot, job_id, run_lease, outcome, closed_at) SELECT $1, job_id, run_lease, outcome, closed_at FROM "@ + schema + ".lease_claim_closures_legacy ON CONFLICT (claim_slot, job_id, run_lease) DO NOTHING"@,
            InstallStatement::DropClosuresAside => "DROP TABLE "@ + schema + ".lease_claim_closures_legacy"@,
        }
    }

    /// The statement's text.
    pub fn sql(self, schema: &str) -> (s: String)
        ensures
            s@ == self.text(schema@),
    {
        match self {
            InstallStatement::CreateSchema => "CREATE SCHEMA IF NOT EXISTS ".to_owned().concat(schema),
            InstallStatement::DropOpenReceiptClaims => "DROP TABLE IF EXISTS ".to_owned().concat(schema).concat(".open_receipt_claims CASCADE"),
            InstallStatement::SetClaimsAside => "ALTER TABLE ".to_owned().concat(schema).concat(".lease_claims RENAME TO lease_claims_legacy"),
            InstallStatement::SetClosuresAside => "ALTER TABLE ".to_owned().concat(schema).concat(".lease_claim_closures RENAME TO lease_claim_closures_legacy"),
            InstallStatement::DropCountSnapshots => "DROP TABLE IF EXISTS ".to_owned().concat(schema).concat(".queue_count_snapshots"),
            InstallStatement::InstallSubstrate => "SELECT awa.install_queue_storage_substrate($1, $2, $3, $4, $5)".to_owned(),
            InstallStatement::TuneReceiptPlane => "SELECT awa.apply_receipt_plane_fillfactor($1)".to_owned(),
            InstallStatement::AddClaimShard => "ALTER TABLE ".to_owned().concat(schema).concat(".lease_claims_legacy ADD COLUMN IF NOT EXISTS enqueue_shard SMALLINT NOT NULL DEFAULT 0"),
            InstallStatement::AddClaimDeadline => "ALTER TABLE ".to_owned().concat(schema).concat(".lease_claims_legacy ADD COLUMN IF NOT EXISTS deadline_at TIMESTAMPTZ"),
            InstallStatement::CopyClaims => "INSERT INTO ".to_owned().concat(schema).concat(".lease_claims (claim_slot, job_id, run_lease, ready_slot, ready_generation, queue, priority, attempt, max_attempts, lane_seq, enqueue_shard, claimed_at, materialized_at, deadline_at) SELECT $1, job_id, run_lease, ready_slot, ready_generation, queue, priority, attempt, max_attempts, lane_seq, enqueue_shard, claimed_at, materialized_at, deadline_at FROM ").concat(schema).concat(".lease_claims_legacy ON CONFLICT (claim_slot, job_id, run_lease) DO NOTHING"),
            InstallStatement::DropClaimsAside => "DROP TABLE ".to_owned().concat(schema).concat(".lease_claims_legacy"),
            InstallStatement::CopyClosures => "INSERT INTO ".to_owned().concat(schema).concat(".lease_claim_closures (claim_slot, job_id, run_lease, outcome, closed_at) SELECT $1, job_id, run_lease, outcome, closed_at FROM ").concat(schema).concat(".lease_claim_closures_legacy ON CONFLICT (claim_slot, job_id, run_lease) DO NOTHING"),
            InstallStatement::DropClosuresAside => "DROP TABLE ".to_owned().concat(schema).concat(".lease_claim_closures_legacy"),
        }
    }
}

/// The error for a retired table that still holds rows.
pub open spec fn open_claims_text(schema: Seq<char>, rows: i64) -> Seq<char> {
    schema + ".open_receipt_claims has "@ + text::int_text(rows as int)
        + " rows but the runtime no longer reads or writes this table. Run the ADR-023 reverse migration (recreate from lease_claims minus durable closure evidence) to drain it, then re-run prepare_schema."@
}

/// Judges the retired table of open receipt claims: it is dropped when it is
/// there and empty, and refuses the installation when it holds rows. `rows` is
/// its row count if the table exists.
pub fn retire_open_claims(schema: &str, rows: Option<i64>) -> (r: Result<
    Vec<InstallStatement>,
    AwaError,
>)
    ensures
        match rows {
            None => r matches Ok(statements) && statements@.len() == 0,
            Some(n) => if n > 0 {
                r matches Err(err) && error::is_validation(err, open_claims_text(schema@, n))
            } else {
                r matches Ok(statements) && statements@ =~= seq![
                    InstallStatement::DropOpenReceiptClaims,
                ]
            },
        },
{
    let mut statements: Vec<InstallStatement> = Vec::new();
    match rows {
        None => Ok(statements),
        Some(n) => {
            if n > 0 {
                return Err(
                    AwaError::Validation(
                        schema.to_owned().concat(".open_receipt_claims has ").concat(
                            text::i64_text(n).as_str(),
                        ).concat(
                            " rows but the runtime no longer reads or writes this table. Run the ADR-023 reverse migration (recreate from lease_claims minus durable closure evidence) to drain it, then re-run prepare_schema.",
                        ),
                    ),
                );
            }
            statements.push(InstallStatement::DropOpenReceiptClaims);
            Ok(statements)
        },
    }
}

/// The relation is an ordinary table, not a partitioned one.
pub open spec fn is_plain_table(relkind: Option<String>) -> bool {
    relkind matches Some(kind) && kind@ == "r"@
}

fn plain_table(relkind: &Option<String>) -> (r: bool)
    ensures
        r == is_plain_table(*relkind),
{
    match relkind {
        Some(kind) => text::same_text(kind.as_str(), "r"),
        None => false,
    }
}

/// The statements that build the tables: unpartitioned claim and closure tables
/// are moved aside first, so that the partitioned ones can take their names.
pub open spec fn building(claims: Option<String>, closures: Option<String>) -> Seq<InstallStatement> {
    (if is_plain_table(claims) {
        seq![InstallStatement::SetClaimsAside]
    } else {
        Seq::empty()
    }) + (if is_plain_table(closures) {
        seq![InstallStatement::SetClosuresAside]
    } else {
        Seq::empty()
    }) + seq![
        InstallStatement::DropCountSnapshots,
        InstallStatement::InstallSubstrate,
        InstallStatement::TuneReceiptPlane,
    ]
}

/// Plans the building of the tables, given what the names of the claim and
/// closure tables stand for now.
pub fn build_statements(claims: &Option<String>, closures: &Option<String>) -> (r: Vec<
    InstallStatement,
>)
    ensures
        r@ == building(*claims, *closures),
{
    let mut r: Vec<InstallStatement> = Vec::new();
    if plain_table(claims) {
        r.push(InstallStatement::SetClaimsAside);
    }
    if plain_table(closures) {
        r.push(InstallStatement::SetClosuresAside);
    }
    r.push(InstallStatement::DropCountSnapshots);
    r.push(InstallStatement::InstallSubstrate);
    r.push(InstallStatement::TuneReceiptPlane);
    assert(r@ =~= building(*claims, *closures));
    r
}

/// The statements that bring rows back from tables that were moved aside, and
/// drop those tables.
pub open spec fn bringing_back(claims_aside: bool, closures_aside: bool) -> Seq<InstallStatement> {
    (if claims_aside {
        seq![
            InstallStatement::AddClaimShard,
            InstallStatement::AddClaimDeadline,
            InstallStatement::CopyClaims,
            InstallStatement::DropClaimsAside,
        ]
    } else {
        Seq::empty()
    }) + (if closures_aside {
        seq![InstallStatement::CopyClosures, InstallStatement::DropClosuresAside]
    } else {
        Seq::empty()
    })
}

/// Plans how rows are brought back. The slot that they go to is needed when
/// there are any.
pub fn bring_back_statements(claims_aside: bool, closures_aside: bool) -> (r: Vec<InstallStatement>)
    ensures
        r@ == bringing_back(claims_aside, closures_aside),
{
    let mut r: Vec<InstallStatement> = Vec::new();
    if claims_aside {
        r.push(InstallStatement::AddClaimShard);
        r.push(InstallStatement::AddClaimDeadline);
        r.push(InstallStatement::CopyClaims);
        r.push(InstallStatement::DropClaimsAside);
    }
    if closures_aside {
        r.push(InstallStatement::CopyClosures);
        r.push(InstallStatement::DropClosuresAside);
    }
    assert(r@ =~= bringing_back(claims_aside, closures_aside));
    r
}

/// A table that was moved aside is dropped only after its rows were copied back.
pub proof fn law_rows_are_copied_before_the_drop(claims_aside: bool, closures_aside: bool, k: int)
    requires
        0 <= k < bringing_back(claims_aside, closures_aside).len(),
    ensures
        ({
            let plan = bringing_back(claims_aside, closures_aside);
            &&& plan[k] == InstallStatement::DropClaimsAside ==> k > 0 && plan[k - 1]
                == InstallStatement::CopyClaims
            &&& plan[k] == InstallStatement::DropClosuresAside ==> k > 0 && plan[k - 1]
                == InstallStatement::CopyClosures
        }),
{
}

/// An installed store is left alone: with partitioned tables and nothing set
/// aside, installing again moves, copies, and drops no rows.
pub proof fn law_reinstall_keeps_rows(claims: Option<String>, closures: Option<String>)
    requires
        !is_plain_table(claims),
        !is_plain_table(closures),
    ensures
        building(claims, closures) =~= seq![
            InstallStatement::DropCountSnapshots,
            InstallStatement::InstallSubstrate,
            InstallStatement::TuneReceiptPlane,
        ],
        bringing_back(false, false).len() == 0,
{
}

/// Judges the activation of the engine: exactly one row tells which engine is
/// the current one.
pub fn check_activated(rows_affected: u64) -> (r: Result<(), AwaError>)
    ensures
        match r {
            Ok(_) => rows_affected == 1,
            Err(err) => rows_affected != 1 && error::is_validation(
                err,
                "queue storage activation requires the storage transition state row"@,
            ),
        },
{
    if rows_affected != 1 {
        Err(error::validation("queue storage activation requires the storage transition state row"))
    } else {
        Ok(())
    }
}

/// The slots of a ring after a reset: slot zero holds generation zero, the
/// others hold none.
pub fn ring_seed(slot_count: usize) -> (r: Vec<(i32, i64)>)
    requires
        slot_count <= i32::MAX,
    ensures
        r@.len() == slot_count,
        forall|i: int|
            0 <= i < slot_count ==> (#[trigger] r@[i]).0 == i && r@[i].1 == (if i == 0 {
                0int
            } else {
                -1
            }),
{
    let mut r: Vec<(i32, i64)> = Vec::new();
    let mut slot: usize = 0;
    while slot < slot_count
        invariant
            slot <= slot_count,
            slot_count <= i32::MAX,
            r@.len() == slot,
            forall|i: int|
                0 <= i < slot ==> (#[trigger] r@[i]).0 == i && r@[i].1 == (if i == 0 {
                    0int
                } else {
                    -1
                }),
        decreases slot_count - slot,
    {
        let generation: i64 = if slot == 0 {
            0
        } else {
            -1
        };
        r.push((slot as i32, generation));
        slot = slot + 1;
    }
    r
}

/// A ring that was just reset is in phase, and has no slot to prune.
pub proof fn law_reset_ring_is_in_phase(slot_count: i32)
    requires
        slot_count > 0,
    ensures
        ring::in_phase(0, 0, slot_count),
        ring::oldest_slot(0, 0, slot_count) is None,
{
    vstd::arithmetic::div_mod::lemma_small_mod(0, slot_count as nat);
}

} // verus!
