//! Parts of SQL statements that several queries share.
use vstd::prelude::*;
use vstd::string::*;

verus! {

/// Joins a terminal row to the ready row behind it, if that is still there.
pub open spec fn ready_join_text(schema: Seq<char>, done_alias: Seq<char>, ready_alias: Seq<char>) -> Seq<char> {
    "
            LEFT JOIN "@
        + schema
        + ".ready_entries AS "@
        + ready_alias
        + "
              ON "@
        + ready_alias
        + ".ready_slot = "@
        + done_alias
        + ".ready_slot
             AND "@
        + ready_alias
        + ".ready_generation = "@
        + done_alias
        + ".ready_generation
             AND "@
        + ready_alias
        + ".queue = "@
        + done_alias
        + ".queue
             AND "@
        + ready_alias
        + ".priority = "@
        + done_alias
        + ".priority
             AND "@
        + ready_alias
        + ".enqueue_shard = "@
        + done_alias
        + ".enqueue_shard
             AND "@
        + ready_alias
        + ".lane_seq = "@
        + done_alias
        + ".lane_seq
        "@
}

/// Joins a terminal row to the ready row behind it, if that is still there.
pub fn done_ready_join(schema: &str, done_alias: &str, ready_alias: &str) -> (s: String)
    ensures
        s@ == ready_join_text(schema@, done_alias@, ready_alias@),
{
    let mut s = "
            LEFT JOIN ".to_owned();
    s = s.concat(schema);
    s = s.concat(".ready_entries AS ");
    s = s.concat(ready_alias);
    s = s.concat("
              ON ");
    s = s.concat(ready_alias);
    s = s.concat(".ready_slot = ");
    s = s.concat(done_alias);
    s = s.concat(".ready_slot
             AND ");
    s = s.concat(ready_alias);
    s = s.concat(".ready_generation = ");
    s = s.concat(done_alias);
    s = s.concat(".ready_generation
             AND ");
    s = s.concat(ready_alias);
    s = s.concat(".queue = ");
    s = s.concat(done_alias);
    s = s.concat(".queue
             AND ");
    s = s.concat(ready_alias);
    s = s.concat(".priority = ");
    s = s.concat(done_alias);
    s = s.concat(".priority
             AND ");
    s = s.concat(ready_alias);
    s = s.concat(".enqueue_shard = ");
    s = s.concat(done_alias);
    s = s.concat(".enqueue_shard
             AND ");
    s = s.concat(ready_alias);
    s = s.concat(".lane_seq = ");
    s = s.concat(done_alias);
    s = s.concat(".lane_seq
        ");
    s
}

/// The columns of a terminal row, with what a narrow row leaves out taken from the
/// ready row behind it.
pub open spec fn done_columns_text(done_alias: Seq<char>, ready_alias: Seq<char>) -> Seq<char> {
    "
                "@
        + done_alias
        + ".ready_slot,
                "@
        + done_alias
        + ".ready_generation,
                "@
        + done_alias
        + ".job_id,
                "@
        + done_alias
        + ".kind,
                "@
        + done_alias
        + ".queue,
                COALESCE("@
        + done_alias
        + ".args, "@
        + ready_alias
        + ".args, '{}'::jsonb) AS args,
                "@
        + done_alias
        + ".state,
                "@
        + done_alias
        + ".priority,
                "@
        + done_alias
        + ".attempt,
                "@
        + done_alias
        + ".run_lease,
                COALESCE("@
        + done_alias
        + ".max_attempts, "@
        + ready_alias
        + ".max_attempts, 25::smallint) AS max_attempts,
                "@
        + done_alias
        + ".lane_seq,
                "@
        + done_alias
        + ".enqueue_shard,
                COALESCE("@
        + done_alias
        + ".run_at, "@
        + ready_alias
        + ".run_at, "@
        + done_alias
        + ".finalized_at) AS run_at,
                COALESCE("@
        + done_alias
        + ".attempted_at, "@
        + ready_alias
        + ".attempted_at) AS attempted_at,
                "@
        + done_alias
        + ".finalized_at,
                COALESCE("@
        + done_alias
        + ".created_at, "@
        + ready_alias
        + ".created_at, "@
        + done_alias
        + ".finalized_at) AS created_at,
                COALESCE("@
        + done_alias
        + ".unique_key, "@
        + ready_alias
        + ".unique_key) AS unique_key,
                COALESCE("@
        + done_alias
        + ".unique_states, "@
        + ready_alias
        + ".unique_states) AS unique_states,
                COALESCE("@
        + done_alias
        + ".payload, "@
        + ready_alias
        + ".payload, '{}'::jsonb) AS payload
        "@
}

/// The columns of a terminal row, with what a narrow row leaves out taken from the
/// ready row behind it.
pub fn done_row_projection(done_alias: &str, ready_alias: &str) -> (s: String)
    ensures
        s@ == done_columns_text(done_alias@, ready_alias@),
{
    let mut s = "
                ".to_owned();
    s = s.concat(done_alias);
    s = s.concat(".ready_slot,
                ");
    s = s.concat(done_alias);
    s = s.concat(".ready_generation,
                ");
    s = s.concat(done_alias);
    s = s.concat(".job_id,
                ");
    s = s.concat(done_alias);
    s = s.concat(".kind,
                ");
    s = s.concat(done_alias);
    s = s.concat(".queue,
                COALESCE(");
    s = s.concat(done_alias);
    s = s.concat(".args, ");
    s = s.concat(ready_alias);
    s = s.concat(".args, '{}'::jsonb) AS args,
                ");
    s = s.concat(done_alias);
    s = s.concat(".state,
                ");
    s = s.concat(done_alias);
    s = s.concat(".priority,
                ");
    s = s.concat(done_alias);
    s = s.concat(".attempt,
                ");
    s = s.concat(done_alias);
    s = s.concat(".run_lease,
                COALESCE(");
    s = s.concat(done_alias);
    s = s.concat(".max_attempts, ");
    s = s.concat(ready_alias);
    s = s.concat(".max_attempts, 25::smallint) AS max_attempts,
                ");
    s = s.concat(done_alias);
    s = s.concat(".lane_seq,
                ");
    s = s.concat(done_alias);
    s = s.concat(".enqueue_shard,
                COALESCE(");
    s = s.concat(done_alias);
    s = s.concat(".run_at, ");
    s = s.concat(ready_alias);
    s = s.concat(".run_at, ");
    s = s.concat(done_alias);
    s = s.concat(".finalized_at) AS run_at,
                COALESCE(");
    s = s.concat(done_alias);
    s = s.concat(".attempted_at, ");
    s = s.concat(ready_alias);
    s = s.concat(".attempted_at) AS attempted_at,
                ");
    s = s.concat(done_alias);
    s = s.concat(".finalized_at,
                COALESCE(");
    s = s.concat(done_alias);
    s = s.concat(".created_at, ");
    s = s.concat(ready_alias);
    s = s.concat(".created_at, ");
    s = s.concat(done_alias);
    s = s.concat(".finalized_at) AS created_at,
                COALESCE(");
    s = s.concat(done_alias);
    s = s.concat(".unique_key, ");
    s = s.concat(ready_alias);
    s = s.concat(".unique_key) AS unique_key,
                COALESCE(");
    s = s.concat(done_alias);
    s = s.concat(".unique_states, ");
    s = s.concat(ready_alias);
    s = s.concat(".unique_states) AS unique_states,
                COALESCE(");
    s = s.concat(done_alias);
    s = s.concat(".payload, ");
    s = s.concat(ready_alias);
    s = s.concat(".payload, '{}'::jsonb) AS payload
        ");
    s
}

/// The condition that a receipt claim is closed, by any evidence there is: its own
/// mark, a closure row, a compact closure batch, or a later row of the attempt.
pub open spec fn closed_evidence_text(schema: Seq<char>, closure_rel: Seq<char>, closure_batch_rel: Seq<char>, claims_alias: Seq<char>) -> Seq<char> {
    "
        (
            "@
        + claims_alias
        + ".closed_at IS NOT NULL
            OR EXISTS (
                SELECT 1 FROM "@
        + closure_rel
        + " AS closures
                WHERE closures.claim_slot = "@
        + claims_alias
        + ".claim_slot
                  AND closures.job_id = "@
        + claims_alias
        + ".job_id
                  AND closures.run_lease = "@
        + claims_alias
        + ".run_lease
            )
            OR EXISTS (
                SELECT 1
                FROM "@
        + closure_batch_rel
        + " AS closure_batches
                WHERE closure_batches.receipt_ranges @> "@
        + claims_alias
        + ".receipt_id
            )
            OR EXISTS (
                SELECT 1 FROM "@
        + schema
        + ".done_entries AS done
                WHERE done.job_id = "@
        + claims_alias
        + ".job_id
                  AND done.run_lease = "@
        + claims_alias
        + ".run_lease
            )
            OR EXISTS (
                SELECT 1 FROM "@
        + schema
        + ".deferred_jobs AS deferred
                WHERE deferred.job_id = "@
        + claims_alias
        + ".job_id
                  AND deferred.run_lease = "@
        + claims_alias
        + ".run_lease
            )
            OR EXISTS (
                SELECT 1 FROM "@
        + schema
        + ".dlq_entries AS dlq
                WHERE dlq.job_id = "@
        + claims_alias
        + ".job_id
                  AND dlq.run_lease = "@
        + claims_alias
        + ".run_lease
            )
        )
        "@
}

/// The condition that a receipt claim is closed, by any evidence there is: its own
/// mark, a closure row, a compact closure batch, or a later row of the attempt.
pub fn receipt_closed_evidence_sql(schema: &str, closure_rel: &str, closure_batch_rel: &str, claims_alias: &str) -> (s: String)
    ensures
        s@ == closed_evidence_text(schema@, closure_rel@, closure_batch_rel@, claims_alias@),
{
    let mut s = "
        (
            ".to_owned();
    s = s.concat(claims_alias);
    s = s.concat(".closed_at IS NOT NULL
            OR EXISTS (
                SELECT 1 FROM ");
    s = s.concat(closure_rel);
    s = s.concat(" AS closures
                WHERE closures.claim_slot = ");
    s = s.concat(claims_alias);
    s = s.concat(".claim_slot
                  AND closures.job_id = ");
    s = s.concat(claims_alias);
    s = s.concat(".job_id
                  AND closures.run_lease = ");
    s = s.concat(claims_alias);
    s = s.concat(".run_lease
            )
            OR EXISTS (
                SELECT 1
                FROM ");
    s = s.concat(closure_batch_rel);
    s = s.concat(" AS closure_batches
                WHERE closure_batches.receipt_ranges @> ");
    s = s.concat(claims_alias);
    s = s.concat(".receipt_id
            )
            OR EXISTS (
                SELECT 1 FROM ");
    s = s.concat(schema);
    s = s.concat(".done_entries AS done
                WHERE done.job_id = ");
    s = s.concat(claims_alias);
    s = s.concat(".job_id
                  AND done.run_lease = ");
    s = s.concat(claims_alias);
    s = s.concat(".run_lease
            )
            OR EXISTS (
                SELECT 1 FROM ");
    s = s.concat(schema);
    s = s.concat(".deferred_jobs AS deferred
                WHERE deferred.job_id = ");
    s = s.concat(claims_alias);
    s = s.concat(".job_id
                  AND deferred.run_lease = ");
    s = s.concat(claims_alias);
    s = s.concat(".run_lease
            )
            OR EXISTS (
                SELECT 1 FROM ");
    s = s.concat(schema);
    s = s.concat(".dlq_entries AS dlq
                WHERE dlq.job_id = ");
    s = s.concat(claims_alias);
    s = s.concat(".job_id
                  AND dlq.run_lease = ");
    s = s.concat(claims_alias);
    s = s.concat(".run_lease
            )
        )
        ");
    s
}

/// The live terminal count of queues, from the counters.
pub open spec fn counted_terminal_text(schema: Seq<char>) -> Seq<char> {
    "live_terminal AS (
                    SELECT GREATEST(
                        0,
                        COALESCE((
                            SELECT SUM(live_terminal_count)
                            FROM "@
        + schema
        + ".queue_terminal_live_counts
                            WHERE queue = ANY($1)
                        ), 0)
                        +
                        COALESCE((
                            SELECT SUM(terminal_delta)
                            FROM "@
        + schema
        + ".queue_terminal_count_deltas
                            WHERE queue = ANY($1)
                        ), 0)
                        +
                        COALESCE((
                            SELECT SUM(completed_count)
                            FROM "@
        + schema
        + ".receipt_completion_batches
                            WHERE queue = ANY($1)
                        ), 0)
                        -
                        COALESCE((
                            SELECT count(*)::bigint
                            FROM "@
        + schema
        + ".receipt_completion_tombstones
                            WHERE queue = ANY($1)
                        ), 0)
                    )::bigint AS terminal
                )"@
}

/// The live terminal count of queues, from the counters.
pub fn counted_terminal_cte(schema: &str) -> (s: String)
    ensures
        s@ == counted_terminal_text(schema@),
{
    let mut s = "live_terminal AS (
                    SELECT GREATEST(
                        0,
                        COALESCE((
                            SELECT SUM(live_terminal_count)
                            FROM ".to_owned();
    s = s.concat(schema);
    s = s.concat(".queue_terminal_live_counts
                            WHERE queue = ANY($1)
                        ), 0)
                        +
                        COALESCE((
                            SELECT SUM(terminal_delta)
                            FROM ");
    s = s.concat(schema);
    s = s.concat(".queue_terminal_count_deltas
                            WHERE queue = ANY($1)
                        ), 0)
                        +
                        COALESCE((
                            SELECT SUM(completed_count)
                            FROM ");
    s = s.concat(schema);
    s = s.concat(".receipt_completion_batches
                            WHERE queue = ANY($1)
                        ), 0)
                        -
                        COALESCE((
                            SELECT count(*)::bigint
                            FROM ");
    s = s.concat(schema);
    s = s.concat(".receipt_completion_tombstones
                            WHERE queue = ANY($1)
                        ), 0)
                    )::bigint AS terminal
                )");
    s
}

/// The live terminal count of queues, by a scan.
pub open spec fn scanned_terminal_text(schema: Seq<char>) -> Seq<char> {
    "live_terminal AS (
                    SELECT count(*)::bigint AS terminal
                    FROM "@
        + schema
        + ".terminal_jobs
                    WHERE queue = ANY($1)
                )"@
}

/// The live terminal count of queues, by a scan.
pub fn scanned_terminal_cte(schema: &str) -> (s: String)
    ensures
        s@ == scanned_terminal_text(schema@),
{
    let mut s = "live_terminal AS (
                    SELECT count(*)::bigint AS terminal
                    FROM ".to_owned();
    s = s.concat(schema);
    s = s.concat(".terminal_jobs
                    WHERE queue = ANY($1)
                )");
    s
}

/// The live terminal count of queues: from the counters once they are trusted,
/// by a scan before that.
pub fn live_terminal_cte(schema: &str, counter_trusted: bool) -> (s: String)
    ensures
        s@ == (if counter_trusted {
            counted_terminal_text(schema@)
        } else {
            scanned_terminal_text(schema@)
        }),
{
    if counter_trusted {
        counted_terminal_cte(schema)
    } else {
        scanned_terminal_cte(schema)
    }
}

} // verus!
