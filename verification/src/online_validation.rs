//! A whole online run over replies that are already at hand.
//!
//! The run is the one that unfolds when the replies arrive in the order of
//! the rows: the dispatcher is driven window by window until every row is
//! recorded, a reply ends the run, or the replies give out.

use vstd::prelude::*;
use crate::dispatcher::{Action, Dispatcher, Phase};
use crate::lookup_client::{outcome_of, row_after, LookupOutcome, ProviderReply};
use crate::{rows_view, CsvRow, RowView};

verus! {

/// How a run ended, and what it leaves to write out.
#[derive(Debug)]
pub struct OnlineRun {
    /// The rows that were recorded, in order.
    pub results: Vec<CsvRow>,
    /// `Complete`, `Aborted` or `Interrupted`.
    pub phase: Phase,
    /// The outcome that ended the run, where one did.
    pub failure: Option<LookupOutcome>,
}

/// The number of replies before the first one that ends a run.
pub open spec fn clean_prefix(replies: Seq<ProviderReply>) -> int
    decreases replies.len(),
{
    if replies.len() == 0 || outcome_of(replies[0]).is_fatal() {
        0
    } else {
        1 + clean_prefix(replies.drop_first())
    }
}

/// The number of rows that a run records: as many as there are replies
/// before the first one that ends the run, and no more than there are rows.
pub open spec fn recorded_count(rows: Seq<RowView>, replies: Seq<ProviderReply>) -> int {
    if clean_prefix(replies) < rows.len() {
        clean_prefix(replies)
    } else {
        rows.len() as int
    }
}

/// The first `count` rows, each with the type that its reply gives it.
pub open spec fn resolved(rows: Seq<RowView>, replies: Seq<ProviderReply>, count: int) -> Seq<
    RowView,
> {
    Seq::new(count as nat, |i: int| row_after(rows[i], replies[i]))
}

/// The phase in which a run ends: complete where every row is recorded,
/// given up where a reply ended it, interrupted where the replies gave out.
pub open spec fn final_phase(rows: Seq<RowView>, replies: Seq<ProviderReply>) -> Phase {
    if clean_prefix(replies) >= rows.len() {
        Phase::Complete
    } else if clean_prefix(replies) < replies.len() {
        Phase::Aborted
    } else {
        Phase::Interrupted
    }
}

/// The clean prefix ends at the first reply that ends a run, or with the
/// replies.
pub proof fn lemma_clean_prefix(replies: Seq<ProviderReply>, k: int)
    requires
        0 <= k <= replies.len(),
        forall|i: int| 0 <= i < k ==> !outcome_of(#[trigger] replies[i]).is_fatal(),
    ensures
        k <= clean_prefix(replies) <= replies.len(),
        k == replies.len() || outcome_of(replies[k]).is_fatal() ==> clean_prefix(replies) == k,
    decreases replies.len(),
{
    if replies.len() == 0 {
    } else if k == 0 {
        if !outcome_of(replies[0]).is_fatal() {
            lemma_clean_prefix(replies.drop_first(), 0);
        }
    } else {
        let rest = replies.drop_first();
        assert(!outcome_of(replies[0]).is_fatal());
        assert forall|i: int| 0 <= i < k - 1 implies !outcome_of(#[trigger] rest[i]).is_fatal() by {
            assert(rest[i] == replies[i + 1]);
        }
        if k < replies.len() {
            assert(rest[k - 1] == replies[k]);
        }
        lemma_clean_prefix(rest, k - 1);
    }
}

/// Runs the dispatcher to its end, with `replies[i]` as the reply to the
/// lookup for row `i`.
pub fn run_online(csv_rows: Vec<CsvRow>, replies: Vec<ProviderReply>) -> (r: OnlineRun)
    ensures
        rows_view(r.results@) == resolved(
            rows_view(csv_rows@),
            replies@,
            recorded_count(rows_view(csv_rows@), replies@),
        ),
        r.phase == final_phase(rows_view(csv_rows@), replies@),
        r.phase is Aborted <==> r.failure is Some,
        r.failure matches Some(outcome) ==> clean_prefix(replies@) < replies@.len() && outcome@
            == outcome_of(replies@[clean_prefix(replies@)]),
{
    let ghost input = rows_view(csv_rows@);
    let ghost all = replies@;
    let mut pending = replies;
    let mut machine = Dispatcher::new(csv_rows);
    let mut action = machine.begin();
    let mut done: usize = 0;
    loop
        invariant
            input == rows_view(csv_rows@),
            all == replies@,
            machine.wf(),
            machine@.rows == input,
            machine@.results =~= resolved(input, all, done as int),
            machine@.origins =~= Seq::new(done as nat, |i: int| i),
            done <= all.len(),
            pending@ =~= all.subrange(done as int, all.len() as int),
            forall|i: int| 0 <= i < done ==> !outcome_of(#[trigger] all[i]).is_fatal(),
            action@ is Dispatch ==> machine@.phase is Dispatching && machine@.start == done
                && action@->Dispatch_0.start == done && action@->Dispatch_0.end == machine@.end(),
            !(action@ is Dispatch) ==> machine@.phase is Complete,
        ensures
            machine@.phase is Complete,
        decreases input.len() - done, if action@ is Dispatch { 1int } else { 0int },
    {
        let window = match action {
            Action::Dispatch(w) => w,
            _ => {
                break ;
            },
        };
        let mut position: usize = window.start;
        while position < window.end
            invariant
                input == rows_view(csv_rows@),
                all == replies@,
                machine.wf(),
                machine@.rows == input,
                machine@.phase is Dispatching,
                machine@.start == window.start,
                machine@.end() == window.end,
                window.start <= position <= window.end,
                machine@.results =~= resolved(input, all, position as int),
                machine@.origins =~= Seq::new(position as nat, |i: int| i),
                position <= all.len(),
                pending@ =~= all.subrange(position as int, all.len() as int),
                forall|i: int| 0 <= i < position ==> !outcome_of(#[trigger] all[i]).is_fatal(),
            decreases window.end - position,
        {
            if pending.len() == 0 {
                proof {
                    lemma_clean_prefix(all, position as int);
                    assert(recorded_count(input, all) == position);
                }
                machine.interrupt();
                let results = machine.into_results();
                assert(rows_view(results@) =~= resolved(input, all, position as int));
                return OnlineRun { results, phase: Phase::Interrupted, failure: None };
            }
            let reply = pending.remove(0);
            assert(reply == all[position as int]);
            let ghost before = machine@;
            assert(before.awaits(position as int)) by {
                if before.origins.contains(position as int) {
                    let j = choose|j: int|
                        0 <= j < before.origins.len() && before.origins[j] == position as int;
                    assert(before.origins[j] == j);
                }
            }
            match machine.record(position, reply) {
                Action::Abort { outcome, http_warning } => {
                    proof {
                        lemma_clean_prefix(all, position as int);
                        assert(outcome_of(all[position as int]).is_fatal());
                        assert(recorded_count(input, all) == position);
                    }
                    let results = machine.into_results();
                    assert(rows_view(results@) =~= resolved(input, all, position as int));
                    return OnlineRun { results, phase: Phase::Aborted, failure: Some(outcome) };
                },
                _ => {},
            }
            position += 1;
        }
        done = window.end;
        machine.pace(0);
        action = machine.resume();
    }
    proof {
        lemma_clean_prefix(all, done as int);
        assert(done == input.len());
        assert(recorded_count(input, all) == done);
    }
    let results = machine.into_results();
    assert(rows_view(results@) =~= resolved(input, all, done as int));
    OnlineRun { results, phase: Phase::Complete, failure: None }
}

} // verus!
