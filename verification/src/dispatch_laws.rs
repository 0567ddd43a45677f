//! What holds of every run of the dispatcher, proved from its transitions.

use vstd::prelude::*;
use crate::batch_window::{window_count, window_end};
use crate::dispatcher::{
    action_of, lemma_distinct_in_range, lemma_initial_wf, lemma_step_keeps_wf, next_state,
    ActionView, DispatchView, Event, Phase,
};
use crate::lookup_client::{outcome_of, row_after, ProviderReply};
use crate::rate_limiter::remaining_delay;
use crate::RowView;

verus! {

/// The number of windows that a run has started so far.
pub open spec fn windows_started(s: DispatchView) -> int {
    if s.phase is Idle || s.total() == 0 {
        0
    } else {
        s.start / 10 + 1
    }
}

/// Every result is a row of the input, with the same identifier and phone
/// number, and no row of the input gives two results.
pub proof fn lemma_results_stem_from_input(s: DispatchView)
    requires
        s.wf(),
    ensures
        forall|j: int|
            0 <= j < s.results.len() ==> 0 <= #[trigger] s.origins[j] < s.rows.len()
                && s.results[j].internal_id == s.rows[s.origins[j]].internal_id
                && s.results[j].phone == s.rows[s.origins[j]].phone,
        forall|i: int, j: int|
            0 <= i < j < s.results.len() ==> #[trigger] s.origins[i] != #[trigger] s.origins[j],
{
}

/// Where no identifier occurs twice in the input, none occurs twice in the
/// results.
pub proof fn lemma_identifiers_stay_unique(s: DispatchView)
    requires
        s.wf(),
        forall|p: int, q: int|
            0 <= p < q < s.rows.len() ==> (#[trigger] s.rows[p]).internal_id != (
            #[trigger] s.rows[q]).internal_id,
    ensures
        forall|i: int, j: int|
            0 <= i < j < s.results.len() ==> (#[trigger] s.results[i]).internal_id != (
            #[trigger] s.results[j]).internal_id,
{
    assert forall|i: int, j: int| 0 <= i < j < s.results.len() implies (
    #[trigger] s.results[i]).internal_id != (#[trigger] s.results[j]).internal_id by {
        let p = s.origins[i];
        let q = s.origins[j];
        assert(p != q);
        if p < q {
            assert(s.rows[p].internal_id != s.rows[q].internal_id);
        } else {
            assert(s.rows[q].internal_id != s.rows[p].internal_id);
        }
    }
}

/// The results hold the windows in order. Every row before the current
/// window is among the results, in the slots before the window's start, and
/// the slots from there on hold rows of the current window only.
pub proof fn lemma_results_follow_windows(s: DispatchView)
    requires
        s.wf(),
    ensures
        forall|p: int| 0 <= p < s.start ==> s.origins.contains(p),
        forall|j: int|
            0 <= j < s.origins.len() ==> (j < s.start <==> #[trigger] s.origins[j] < s.start),
        forall|j: int|
            s.start <= j < s.origins.len() ==> s.start <= #[trigger] s.origins[j] < s.end(),
        forall|i: int, j: int|
            0 <= i < j < s.origins.len() ==> #[trigger] s.origins[i] / 10 <= #[trigger] s.origins[j]
                / 10,
{
    let early = s.origins.subrange(0, s.start);
    assert forall|j: int| 0 <= j < early.len() implies 0 <= #[trigger] early[j] < s.start by {
        assert(s.origins[j] / 10 == j / 10);
    }
    assert(early.no_duplicates()) by {
        assert forall|i: int, j: int|
            0 <= i < early.len() && 0 <= j < early.len() && i != j implies early[i]
            != early[j] by {
            assert(s.origins[i] != s.origins[j]);
        }
    }
    lemma_distinct_in_range(early, 0, s.start);
    assert forall|p: int| 0 <= p < s.start implies s.origins.contains(p) by {
        assert(early.contains(p));
        let j = choose|j: int| 0 <= j < early.len() && early[j] == p;
        assert(s.origins[j] == p);
    }
    assert forall|j: int| 0 <= j < s.origins.len() implies (j < s.start <==> #[trigger] s.origins[j]
        < s.start) by {
        assert(s.origins[j] / 10 == j / 10);
    }
    assert forall|j: int| s.start <= j < s.origins.len() implies s.start <= #[trigger] s.origins[j]
        < s.end() by {
        assert(s.origins[j] / 10 == j / 10);
    }
    assert forall|i: int, j: int| 0 <= i < j < s.origins.len() implies #[trigger] s.origins[i] / 10
        <= #[trigger] s.origins[j] / 10 by {
        assert(s.origins[i] / 10 == i / 10);
        assert(s.origins[j] / 10 == j / 10);
    }
}

/// A complete run has one result for every row of the input.
pub proof fn lemma_complete_covers_input(s: DispatchView)
    requires
        s.wf(),
        s.phase is Complete,
    ensures
        s.results.len() == s.rows.len(),
        forall|p: int| 0 <= p < s.rows.len() ==> s.origins.contains(p),
{
    lemma_distinct_in_range(s.origins, 0, s.total());
}

/// A run that is complete, given up or interrupted stays as it is: every
/// further event is rejected, so no further window is started and no row is
/// added.
pub proof fn lemma_final_phases_absorb(s: DispatchView, e: Event)
    requires
        s.phase is Complete || s.phase is Aborted || s.phase is Interrupted,
    ensures
        next_state(s, e) == s,
        action_of(s, e) is Rejected,
{
}

/// Fail-fast: a failed lookup ends the run at once. The results recorded so
/// far are kept as they are, the failed row is not among them, and the
/// caller is told to give up with that failure.
pub proof fn lemma_failure_aborts(s: DispatchView, position: usize, reply: ProviderReply)
    requires
        s.wf(),
        s.awaits(position as int),
        outcome_of(reply).is_fatal(),
    ensures
        next_state(s, Event::Completed { position, reply }) == s.in_phase(Phase::Aborted),
        action_of(s, Event::Completed { position, reply }) is Abort,
        !next_state(s, Event::Completed { position, reply }).origins.contains(position as int),
{
}

/// A lookup that did not fail adds exactly its row, with the type that the
/// reply gives it, at the end of the results.
pub proof fn lemma_success_appends(s: DispatchView, position: usize, reply: ProviderReply)
    requires
        s.wf(),
        s.awaits(position as int),
        !outcome_of(reply).is_fatal(),
    ensures
        next_state(s, Event::Completed { position, reply }).results == s.results.push(
            row_after(s.rows[position as int], reply),
        ),
        next_state(s, Event::Completed { position, reply }).results.last().phone_type
            == row_after(s.rows[position as int], reply).phone_type,
        next_state(s, Event::Completed { position, reply }).phase == s.phase,
{
}

/// The results only grow, by one row at a time, and what was recorded is
/// never changed: whenever the results are read, they are whole rows of
/// finished lookups, and an earlier reading is a prefix of a later one. The
/// input is never changed, and an interrupt adds nothing.
pub proof fn lemma_results_only_grow(s: DispatchView, e: Event)
    requires
        s.wf(),
    ensures
        next_state(s, e).rows == s.rows,
        s.results.len() <= next_state(s, e).results.len() <= s.results.len() + 1,
        next_state(s, e).results.subrange(0, s.results.len() as int) == s.results,
        next_state(s, e).origins.subrange(0, s.origins.len() as int) == s.origins,
        e is Interrupt ==> next_state(s, e).results == s.results,
{
    let t = next_state(s, e);
    assert(t.results.subrange(0, s.results.len() as int) =~= s.results);
    assert(t.origins.subrange(0, s.origins.len() as int) =~= s.origins);
}

/// A window is started only once every row before it is recorded, and the
/// windows are started in order: each Dispatch is for the window that
/// follows the ones started so far.
pub proof fn lemma_dispatch_in_order(s: DispatchView, e: Event)
    requires
        s.wf(),
        action_of(s, e) is Dispatch,
    ensures
        action_of(s, e)->Dispatch_0.start == 10 * windows_started(s),
        action_of(s, e)->Dispatch_0.start == s.results.len(),
        action_of(s, e)->Dispatch_0.end == window_end(10 * windows_started(s), s.total()),
        action_of(s, e)->Dispatch_0.start < action_of(s, e)->Dispatch_0.end,
        windows_started(next_state(s, e)) == windows_started(s) + 1,
        next_state(s, e).phase is Dispatching,
        next_state(s, e).start == action_of(s, e)->Dispatch_0.start,
{
}

/// No other action starts a window, and a complete run has started as many
/// windows as the rows fall into: a tenth of their number, rounded up.
pub proof fn lemma_windows_counted(s: DispatchView, e: Event)
    requires
        s.wf(),
    ensures
        !(action_of(s, e) is Dispatch) ==> windows_started(next_state(s, e)) == windows_started(
            s,
        ),
        windows_started(s) <= window_count(s.total()),
        s.phase is Complete ==> windows_started(s) == window_count(s.total()),
{
}

/// Pacing: the run moves on to another window only out of a pause, and a
/// pause is entered only when the window under way is joined, for the time
/// that is missing to a full second since the window started. A run is
/// complete only after the pause that follows its last window.
pub proof fn lemma_windows_are_paced(s: DispatchView, e: Event)
    requires
        s.wf(),
    ensures
        next_state(s, e).start != s.start ==> s.phase is Waiting && e is DelayElapsed,
        next_state(s, e).phase is Waiting && !(s.phase is Waiting) ==> s.phase is Dispatching
            && s.joined() && e is Joined && action_of(s, e) == ActionView::Wait(
            remaining_delay(e->elapsed_millis as int),
        ),
        next_state(s, e).phase is Complete && !(s.phase is Complete) && s.total() > 0
            ==> s.phase is Waiting,
        action_of(s, e) is Wait ==> 0 <= action_of(s, e)->Wait_0 <= 1000 && e->elapsed_millis
            + action_of(s, e)->Wait_0 >= 1000,
{
}

/// The state that a run is in after a sequence of events.
pub open spec fn state_after(s: DispatchView, events: Seq<Event>) -> DispatchView
    decreases events.len(),
{
    if events.len() == 0 {
        s
    } else {
        next_state(state_after(s, events.drop_last()), events.last())
    }
}

/// The action that answers the last of a sequence of events.
pub open spec fn last_action(s: DispatchView, events: Seq<Event>) -> ActionView
    recommends
        events.len() > 0,
{
    action_of(state_after(s, events.drop_last()), events.last())
}

/// The number of windows that the caller was told to start.
pub open spec fn dispatches(s: DispatchView, events: Seq<Event>) -> int
    decreases events.len(),
{
    if events.len() == 0 {
        0
    } else {
        dispatches(s, events.drop_last()) + if last_action(s, events) is Dispatch {
            1int
        } else {
            0int
        }
    }
}

/// The number of pauses that the caller was told to make.
pub open spec fn pauses(s: DispatchView, events: Seq<Event>) -> int
    decreases events.len(),
{
    if events.len() == 0 {
        0
    } else {
        pauses(s, events.drop_last()) + if last_action(s, events) is Wait {
            1int
        } else {
            0int
        }
    }
}

/// The milliseconds that the windows and the pauses after them took
/// together: for each window that was joined, the time it took and the pause
/// that was asked for.
pub open spec fn paced_millis(s: DispatchView, events: Seq<Event>) -> int
    decreases events.len(),
{
    if events.len() == 0 {
        0
    } else {
        paced_millis(s, events.drop_last()) + if last_action(s, events) is Wait {
            events.last()->elapsed_millis + last_action(s, events)->Wait_0
        } else {
            0int
        }
    }
}

/// What the counts of a run are in each phase.
spec fn counts_fit(t: DispatchView, started: int, paused: int, millis: int) -> bool {
    &&& started == windows_started(t)
    &&& millis >= 1000 * paused
    &&& match t.phase {
        Phase::Idle => paused == 0,
        Phase::Dispatching => paused == started - 1,
        Phase::Waiting => paused == started,
        Phase::Complete => paused == started,
        Phase::Aborted => paused == started - 1,
        Phase::Interrupted => started - 1 <= paused <= started,
    }
}

/// One more event keeps the counts in step with the state.
proof fn lemma_counts_step(s: DispatchView, e: Event, started: int, paused: int, millis: int)
    requires
        s.wf(),
        counts_fit(s, started, paused, millis),
    ensures
        counts_fit(
            next_state(s, e),
            started + if action_of(s, e) is Dispatch {
                1int
            } else {
                0int
            },
            paused + if action_of(s, e) is Wait {
                1int
            } else {
                0int
            },
            millis + if action_of(s, e) is Wait {
                e->elapsed_millis + action_of(s, e)->Wait_0
            } else {
                0int
            },
        ),
{
    lemma_dispatch_counted(s, e);
    lemma_windows_are_paced(s, e);
}

/// An event adds to the windows started exactly where it is answered by a
/// Dispatch.
proof fn lemma_dispatch_counted(s: DispatchView, e: Event)
    requires
        s.wf(),
    ensures
        windows_started(next_state(s, e)) == windows_started(s) + if action_of(s, e) is Dispatch {
            1int
        } else {
            0int
        },
{
    if action_of(s, e) is Dispatch {
        lemma_dispatch_in_order(s, e);
    } else {
        lemma_windows_counted(s, e);
    }
}

/// Every state of a run is well-formed, and the counts of the run fit it.
proof fn lemma_run_counts(rows: Seq<RowView>, events: Seq<Event>)
    requires
        rows.len() <= usize::MAX,
    ensures
        state_after(DispatchView::initial(rows), events).wf(),
        counts_fit(
            state_after(DispatchView::initial(rows), events),
            dispatches(DispatchView::initial(rows), events),
            pauses(DispatchView::initial(rows), events),
            paced_millis(DispatchView::initial(rows), events),
        ),
    decreases events.len(),
{
    let s = DispatchView::initial(rows);
    if events.len() == 0 {
        lemma_initial_wf(rows);
    } else {
        let before = events.drop_last();
        lemma_run_counts(rows, before);
        let t = state_after(s, before);
        lemma_step_keeps_wf(t, events.last());
        lemma_counts_step(
            t,
            events.last(),
            dispatches(s, before),
            pauses(s, before),
            paced_millis(s, before),
        );
    }
}

/// Whatever the events, a run stays within the states that the invariant
/// describes, starts no more windows than the rows fall into, and pauses
/// after every window it has joined. A run that is complete has started
/// exactly a tenth as many windows as there are rows, rounded up, has paused
/// as often, and has taken a second or more for each of them.
pub proof fn lemma_whole_run(rows: Seq<RowView>, events: Seq<Event>)
    requires
        rows.len() <= usize::MAX,
    ensures
        state_after(DispatchView::initial(rows), events).wf(),
        state_after(DispatchView::initial(rows), events).rows == rows,
        pauses(DispatchView::initial(rows), events) <= dispatches(
            DispatchView::initial(rows),
            events,
        ) <= window_count(rows.len() as int),
        dispatches(DispatchView::initial(rows), events) - 1 <= pauses(
            DispatchView::initial(rows),
            events,
        ),
        paced_millis(DispatchView::initial(rows), events) >= 1000 * pauses(
            DispatchView::initial(rows),
            events,
        ),
        state_after(DispatchView::initial(rows), events).phase is Complete ==> dispatches(
            DispatchView::initial(rows),
            events,
        ) == window_count(rows.len() as int) && pauses(DispatchView::initial(rows), events)
            == window_count(rows.len() as int),
{
    let s = DispatchView::initial(rows);
    lemma_run_counts(rows, events);
    let t = state_after(s, events);
    assert(t.rows == rows) by {
        lemma_rows_fixed(s, events);
    }
    lemma_windows_counted(t, Event::Start);
}

/// The input is the same in every state of a run.
proof fn lemma_rows_fixed(s: DispatchView, events: Seq<Event>)
    ensures
        state_after(s, events).rows == s.rows,
    decreases events.len(),
{
    if events.len() > 0 {
        lemma_rows_fixed(s, events.drop_last());
    }
}

} // verus!
