//! What the shared clauses of statements name: which columns are compared, which
//! tables are asked, and where a narrow row takes what it leaves out.

use crate::sql::{
    counted_terminal_cte, done_ready_join, done_row_projection, live_terminal_cte,
    receipt_closed_evidence_sql, scanned_terminal_cte,
};
use vstd::prelude::*;

verus! {

/// A text has a part somewhere in it.
pub open spec fn holds(text: Seq<char>, part: Seq<char>) -> bool {
    exists|at: int|
        0 <= at <= text.len() - part.len() && #[trigger] text.subrange(at, at + part.len()) == part
}

broadcast proof fn lemma_holds_front(front: Seq<char>, more: Seq<char>, part: Seq<char>)
    requires
        holds(front, part),
    ensures
        #[trigger] holds(front + more, part),
{
    let at = choose|at: int|
        0 <= at <= front.len() - part.len() && #[trigger] front.subrange(at, at + part.len())
            == part;
    assert((front + more).subrange(at, at + part.len()) =~= part);
}

broadcast proof fn lemma_holds_two(front: Seq<char>, a: Seq<char>, b: Seq<char>)
    ensures
        #[trigger] holds(front + a + b, a + b),
{
    let at = front.len() as int;
    let part = a + b;
    assert((front + a + b).subrange(at, at + part.len()) =~= part);
}

broadcast proof fn lemma_holds_three(front: Seq<char>, a: Seq<char>, b: Seq<char>, c: Seq<char>)
    ensures
        #[trigger] holds(front + a + b + c, a + b + c),
{
    let at = front.len() as int;
    let part = a + b + c;
    assert((front + a + b + c).subrange(at, at + part.len()) =~= part);
}

broadcast proof fn lemma_holds_five(
    front: Seq<char>,
    a: Seq<char>,
    b: Seq<char>,
    c: Seq<char>,
    d: Seq<char>,
    e: Seq<char>,
)
    ensures
        #[trigger] holds(front + a + b + c + d + e, a + b + c + d + e),
{
    let at = front.len() as int;
    let part = a + b + c + d + e;
    assert((front + a + b + c + d + e).subrange(at, at + part.len()) =~= part);
}

/// A terminal row is joined to the ready row of its schema at its place: slot,
/// generation, queue, priority, shard and number are compared, each with its like.
pub proof fn law_join_is_on_the_place(
    schema: &str,
    done_alias: &str,
    ready_alias: &str,
    joined: String,
)
    requires
        call_ensures(done_ready_join, (schema, done_alias, ready_alias), joined),
    ensures
        holds(joined@, schema@ + ".ready_entries AS "@ + ready_alias@),
        holds(joined@, ready_alias@ + ".ready_slot = "@ + done_alias@),
        holds(joined@, ready_alias@ + ".ready_generation = "@ + done_alias@),
        holds(joined@, ready_alias@ + ".queue = "@ + done_alias@),
        holds(joined@, ready_alias@ + ".priority = "@ + done_alias@),
        holds(joined@, ready_alias@ + ".enqueue_shard = "@ + done_alias@),
        holds(joined@, ready_alias@ + ".lane_seq = "@ + done_alias@),
{
    broadcast use {lemma_holds_front, lemma_holds_two, lemma_holds_three, lemma_holds_five};

}

/// What a terminal row leaves out is taken from the ready row: the terminal row
/// comes first, and the ready row after it.
pub proof fn law_narrow_rows_are_filled_in(
    done_alias: &str,
    ready_alias: &str,
    columns: String,
)
    requires
        call_ensures(done_row_projection, (done_alias, ready_alias), columns),
    ensures
        holds(columns@, done_alias@ + ".args, "@ + ready_alias@),
        holds(columns@, done_alias@ + ".max_attempts, "@ + ready_alias@),
        holds(columns@, done_alias@ + ".run_at, "@ + ready_alias@),
        holds(columns@, done_alias@ + ".attempted_at, "@ + ready_alias@),
        holds(columns@, done_alias@ + ".created_at, "@ + ready_alias@),
        holds(columns@, done_alias@ + ".unique_key, "@ + ready_alias@),
        holds(columns@, done_alias@ + ".unique_states, "@ + ready_alias@),
        holds(columns@, done_alias@ + ".payload, "@ + ready_alias@),
{
    broadcast use {lemma_holds_front, lemma_holds_two, lemma_holds_three, lemma_holds_five};

}

/// A claim counts as closed by a closure of its attempt, by a batch of closures with
/// its receipt, or by a terminal, deferred or dead row of its attempt in the schema.
pub proof fn law_closed_claims_leave_evidence(
    schema: &str,
    closure_rel: &str,
    closure_batch_rel: &str,
    claims_alias: &str,
    evidence: String,
)
    requires
        call_ensures(
            receipt_closed_evidence_sql,
            (schema, closure_rel, closure_batch_rel, claims_alias),
            evidence,
        ),
    ensures
        holds(evidence@, closure_rel@ + " AS closures
                WHERE closures.claim_slot = "@ + claims_alias@ + ".claim_slot
                  AND closures.job_id = "@ + claims_alias@),
        holds(evidence@, closure_batch_rel@ + " AS closure_batches
                WHERE closure_batches.receipt_ranges @> "@ + claims_alias@),
        holds(evidence@, schema@ + ".done_entries AS done
                WHERE done.job_id = "@ + claims_alias@ + ".job_id
                  AND done.run_lease = "@ + claims_alias@),
        holds(evidence@, schema@ + ".deferred_jobs AS deferred
                WHERE deferred.job_id = "@ + claims_alias@ + ".job_id
                  AND deferred.run_lease = "@ + claims_alias@),
        holds(evidence@, schema@ + ".dlq_entries AS dlq
                WHERE dlq.job_id = "@ + claims_alias@ + ".job_id
                  AND dlq.run_lease = "@ + claims_alias@),
{
    broadcast use {lemma_holds_front, lemma_holds_two, lemma_holds_three, lemma_holds_five};

}

/// The counted number of terminal rows adds the live counts, the deltas and the
/// completed batches of the schema, and takes the tombstones off.
pub proof fn law_counted_rows_come_from_the_counters(
    schema: &str,
    counted: String,
)
    requires
        call_ensures(counted_terminal_cte, (schema,), counted),
    ensures
        holds(counted@, schema@ + ".queue_terminal_live_counts
                            WHERE queue = ANY($1)
                        ), 0)
                        +
                        COALESCE((
                            SELECT SUM(terminal_delta)
                            FROM "@),
        holds(counted@, schema@ + ".queue_terminal_count_deltas
                            WHERE queue = ANY($1)
                        ), 0)
                        +
                        COALESCE((
                            SELECT SUM(completed_count)
                            FROM "@),
        holds(counted@, schema@ + ".receipt_completion_batches
                            WHERE queue = ANY($1)
                        ), 0)
                        -
                        COALESCE((
                            SELECT count(*)::bigint
                            FROM "@),
        holds(counted@, schema@ + ".receipt_completion_tombstones
                            WHERE queue = ANY($1)
                        ), 0)
                    )::bigint AS terminal
                )"@),
{
    broadcast use {lemma_holds_front, lemma_holds_two, lemma_holds_three, lemma_holds_five};

}

/// Terminal rows are counted by the counters exactly where those are trusted.
pub proof fn law_trusted_counters_are_used(
    schema: &str,
    trusted: bool,
    chosen: String,
    counted: String,
    scanned: String,
)
    requires
        call_ensures(live_terminal_cte, (schema, trusted), chosen),
        call_ensures(counted_terminal_cte, (schema,), counted),
        call_ensures(scanned_terminal_cte, (schema,), scanned),
    ensures
        trusted ==> chosen@ == counted@,
        !trusted ==> chosen@ == scanned@,
{
}

} // verus!
