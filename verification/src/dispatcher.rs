//! The batch dispatcher: a state machine that walks the rows window by
//! window, records each finished lookup, paces the windows and stops at the
//! first failure or at an interrupt.
//!
//! The machine decides; its caller acts. The caller starts the lookups of a
//! window, hands each reply back as it arrives, sleeps for the time the
//! machine asks for, and writes the results out when told to.

use vstd::prelude::*;
use crate::batch_window::{window_end, Window, WINDOW_SIZE};
use crate::lookup_client::{
    outcome_of, resolve, row_after, warning_of, LookupOutcome, OutcomeView, ProviderReply,
};
use crate::rate_limiter::{remaining_delay, remaining_delay_millis};
use crate::{rows_view, CsvRow, RowView};

verus! {

/// Where a run stands.
#[derive(Debug, Clone, Copy, PartialEq, Eq, Structural)]
pub enum Phase {
    /// Nothing has been started.
    Idle,
    /// The lookups of the current window are under way.
    Dispatching,
    /// The current window is done and the pause after it is running.
    Waiting,
    /// Every window is done.
    Complete,
    /// A lookup failed and the run was given up.
    Aborted,
    /// The operator stopped the run.
    Interrupted,
}

/// What happened outside the machine.
#[derive(Debug)]
pub enum Event {
    /// The run is to begin.
    Start,
    /// The lookup for the row at `position` of the input has returned.
    Completed { position: usize, reply: ProviderReply },
    /// All lookups of the current window have returned, `elapsed_millis`
    /// after the window was started.
    Joined { elapsed_millis: u128 },
    /// The pause after a window is over.
    DelayElapsed,
    /// The operator asked the run to stop.
    Interrupt,
}

/// What the caller is to do next.
#[derive(Debug)]
pub enum Action {
    /// Report progress, then start the lookups of this window.
    Dispatch(Window),
    /// The row was added to the results; keep waiting for the others.
    Recorded { outcome: LookupOutcome, http_warning: Option<u16> },
    /// Pause for this many milliseconds.
    Wait(u64),
    /// The run is complete: write the results out.
    Finish,
    /// The run is given up: report the failure and write out what is there.
    Abort { outcome: LookupOutcome, http_warning: Option<u16> },
    /// The run was interrupted: write out what is there and leave.
    Flush,
    /// The event does not fit the state; nothing has changed.
    Rejected,
}

/// An action as mathematics.
pub enum ActionView {
    Dispatch(Window),
    Recorded { outcome: OutcomeView, http_warning: Option<u16> },
    Wait(int),
    Finish,
    Abort { outcome: OutcomeView, http_warning: Option<u16> },
    Flush,
    Rejected,
}

impl View for Action {
    type V = ActionView;

    open spec fn view(&self) -> ActionView {
        match *self {
            Action::Dispatch(w) => ActionView::Dispatch(w),
            Action::Recorded { outcome, http_warning } => ActionView::Recorded {
                outcome: outcome@,
                http_warning,
            },
            Action::Wait(millis) => ActionView::Wait(millis as int),
            Action::Finish => ActionView::Finish,
            Action::Abort { outcome, http_warning } => ActionView::Abort {
                outcome: outcome@,
                http_warning,
            },
            Action::Flush => ActionView::Flush,
            Action::Rejected => ActionView::Rejected,
        }
    }
}

/// The state of a run as mathematics.
pub struct DispatchView {
    /// The rows to look up.
    pub rows: Seq<RowView>,
    /// The rows whose lookup is done, in the order in which they were
    /// recorded.
    pub results: Seq<RowView>,
    /// For each result, the position of its row in the input.
    pub origins: Seq<int>,
    /// The position at which the current window starts.
    pub start: int,
    pub phase: Phase,
}

impl DispatchView {
    /// The number of rows to look up.
    pub open spec fn total(self) -> int {
        self.rows.len() as int
    }

    /// Where the current window ends.
    pub open spec fn end(self) -> int {
        window_end(self.start, self.total())
    }

    /// Whether a lookup for the row at `position` is awaited: the row lies
    /// in the window under way and is not recorded yet.
    pub open spec fn awaits(self, position: int) -> bool {
        self.phase is Dispatching && self.start <= position < self.end()
            && !self.origins.contains(position)
    }

    /// Whether every row of the current window is recorded.
    pub open spec fn joined(self) -> bool {
        self.results.len() == self.end()
    }

    /// Whether the current window is the last one.
    pub open spec fn in_last_window(self) -> bool {
        self.start + 10 >= self.total()
    }

    /// The same run in another phase.
    pub open spec fn in_phase(self, phase: Phase) -> DispatchView {
        DispatchView { phase, ..self }
    }

    /// The state of a run that has not begun.
    pub open spec fn initial(rows: Seq<RowView>) -> DispatchView {
        DispatchView {
            rows,
            results: Seq::empty(),
            origins: Seq::empty(),
            start: 0,
            phase: Phase::Idle,
        }
    }

    /// What holds of every state that a run can reach.
    ///
    /// Each result stems from one row of the input, whose identifier and
    /// phone number it keeps, and no row gives two results. The results
    /// stand in the order of the windows: the tenth slot of the results
    /// belongs to the tenth of the input. All windows before the current
    /// one are fully recorded. The rows are no more than a machine can
    /// count.
    pub open spec fn wf(self) -> bool {
        &&& self.results.len() == self.origins.len()
        &&& self.origins.no_duplicates()
        &&& forall|j: int|
            0 <= j < self.origins.len() ==> 0 <= #[trigger] self.origins[j] < self.total()
                && self.origins[j] / 10 == j / 10
        &&& forall|j: int|
            0 <= j < self.results.len() ==> (#[trigger] self.results[j]).internal_id
                == self.rows[self.origins[j]].internal_id && self.results[j].phone
                == self.rows[self.origins[j]].phone
        &&& self.total() <= usize::MAX
        &&& 0 <= self.start <= self.total()
        &&& self.start % 10 == 0
        &&& self.start <= self.results.len() <= self.end()
        &&& match self.phase {
            Phase::Idle => self.start == 0 && self.results.len() == 0,
            Phase::Dispatching => self.start < self.total(),
            Phase::Waiting => self.start < self.total() && self.joined(),
            Phase::Complete => self.results.len() == self.total() && (self.total() == 0
                || self.start < self.total()),
            Phase::Aborted => self.results.len() < self.end(),
            Phase::Interrupted => self.start < self.total(),
        }
    }
}

/// The state after an event. An event that does not fit the state leaves it
/// as it is.
pub open spec fn next_state(s: DispatchView, e: Event) -> DispatchView {
    match e {
        Event::Start => if s.phase is Idle {
            if s.total() == 0 {
                s.in_phase(Phase::Complete)
            } else {
                s.in_phase(Phase::Dispatching)
            }
        } else {
            s
        },
        Event::Completed { position, reply } => if s.awaits(position as int) {
            if outcome_of(reply).is_fatal() {
                s.in_phase(Phase::Aborted)
            } else {
                DispatchView {
                    results: s.results.push(row_after(s.rows[position as int], reply)),
                    origins: s.origins.push(position as int),
                    ..s
                }
            }
        } else {
            s
        },
        Event::Joined { elapsed_millis } => if s.phase is Dispatching && s.joined() {
            s.in_phase(Phase::Waiting)
        } else {
            s
        },
        Event::DelayElapsed => if s.phase is Waiting {
            if s.in_last_window() {
                s.in_phase(Phase::Complete)
            } else {
                DispatchView { start: s.start + 10, phase: Phase::Dispatching, ..s }
            }
        } else {
            s
        },
        Event::Interrupt => if s.phase is Dispatching || s.phase is Waiting {
            s.in_phase(Phase::Interrupted)
        } else {
            s
        },
    }
}

/// What the caller is told to do on an event.
pub open spec fn action_of(s: DispatchView, e: Event) -> ActionView {
    match e {
        Event::Start => if s.phase is Idle {
            if s.total() == 0 {
                ActionView::Finish
            } else {
                ActionView::Dispatch(
                    Window { start: 0, end: window_end(0, s.total()) as usize },
                )
            }
        } else {
            ActionView::Rejected
        },
        Event::Completed { position, reply } => if s.awaits(position as int) {
            if outcome_of(reply).is_fatal() {
                ActionView::Abort { outcome: outcome_of(reply), http_warning: warning_of(reply) }
            } else {
                ActionView::Recorded {
                    outcome: outcome_of(reply),
                    http_warning: warning_of(reply),
                }
            }
        } else {
            ActionView::Rejected
        },
        Event::Joined { elapsed_millis } => if s.phase is Dispatching && s.joined() {
            ActionView::Wait(remaining_delay(elapsed_millis as int))
        } else {
            ActionView::Rejected
        },
        Event::DelayElapsed => if s.phase is Waiting {
            if s.in_last_window() {
                ActionView::Finish
            } else {
                ActionView::Dispatch(
                    Window {
                        start: (s.start + 10) as usize,
                        end: window_end(s.start + 10, s.total()) as usize,
                    },
                )
            }
        } else {
            ActionView::Rejected
        },
        Event::Interrupt => if s.phase is Dispatching || s.phase is Waiting {
            ActionView::Flush
        } else {
            ActionView::Rejected
        },
    }
}

/// Distinct positions inside a range are no more than the range holds.
pub proof fn lemma_distinct_in_range(values: Seq<int>, lo: int, hi: int)
    requires
        lo <= hi,
        values.no_duplicates(),
        forall|j: int| 0 <= j < values.len() ==> lo <= #[trigger] values[j] < hi,
    ensures
        values.len() <= hi - lo,
        values.len() == hi - lo ==> forall|p: int| lo <= p < hi ==> values.contains(p),
{
    values.unique_seq_to_set();
    vstd::set_lib::lemma_int_range(lo, hi);
    let range = vstd::set_lib::set_int_range(lo, hi);
    assert(values.to_set().subset_of(range)) by {
        assert forall|p: int| values.to_set().contains(p) implies range.contains(p) by {
            let j = choose|j: int| 0 <= j < values.len() && values[j] == p;
            assert(lo <= values[j] < hi);
        }
    }
    vstd::set_lib::lemma_len_subset(values.to_set(), range);
    if values.len() == hi - lo {
        vstd::set_lib::lemma_subset_equality(values.to_set(), range);
        assert forall|p: int| lo <= p < hi implies values.contains(p) by {
            assert(range.contains(p));
            assert(values.to_set().contains(p));
        }
    }
}

/// While a lookup is awaited, the current window is not full: the results
/// end before the window does.
pub proof fn lemma_awaited_leaves_room(s: DispatchView, position: int)
    requires
        s.wf(),
        s.awaits(position),
    ensures
        s.results.len() < s.end(),
{
    if s.results.len() == s.end() {
        let slots = s.origins.subrange(s.start, s.end());
        assert forall|j: int| 0 <= j < slots.len() implies s.start <= #[trigger] slots[j]
            < s.end() by {
            let v = s.origins[s.start + j];
            assert(v / 10 == (s.start + j) / 10);
        }
        assert(slots.no_duplicates()) by {
            assert forall|i: int, j: int|
                0 <= i < slots.len() && 0 <= j < slots.len() && i != j implies slots[i]
                != slots[j] by {
                assert(s.origins[s.start + i] != s.origins[s.start + j]);
            }
        }
        lemma_distinct_in_range(slots, s.start, s.end());
        assert(slots.contains(position));
        let j = choose|j: int| 0 <= j < slots.len() && slots[j] == position;
        assert(s.origins[s.start + j] == position);
        assert(s.origins.contains(position));
    }
}

/// The run's first state is well-formed.
pub proof fn lemma_initial_wf(rows: Seq<RowView>)
    requires
        rows.len() <= usize::MAX,
    ensures
        DispatchView::initial(rows).wf(),
{
}

/// No event leads out of the well-formed states.
pub proof fn lemma_step_keeps_wf(s: DispatchView, e: Event)
    requires
        s.wf(),
    ensures
        next_state(s, e).wf(),
{
    let t = next_state(s, e);
    match e {
        Event::Completed { position, reply } => {
            if s.awaits(position as int) && !outcome_of(reply).is_fatal() {
                lemma_awaited_leaves_room(s, position as int);
                let n = s.results.len() as int;
                assert(t.origins.no_duplicates()) by {
                    assert forall|i: int, j: int|
                        0 <= i < t.origins.len() && 0 <= j < t.origins.len() && i
                            != j implies t.origins[i] != t.origins[j] by {
                        if i < n && j < n {
                            assert(s.origins[i] != s.origins[j]);
                        } else if i < n {
                            assert(s.origins[i] == t.origins[i]);
                            assert(!s.origins.contains(position as int));
                        } else {
                            assert(s.origins[j] == t.origins[j]);
                            assert(!s.origins.contains(position as int));
                        }
                    }
                }
                assert forall|j: int| 0 <= j < t.origins.len() implies 0 <= #[trigger] t.origins[j]
                    < t.total() && t.origins[j] / 10 == j / 10 by {
                    if j < n {
                        assert(t.origins[j] == s.origins[j]);
                    }
                }
                assert forall|j: int| 0 <= j < t.results.len() implies (#[trigger] t.results[j]).internal_id
                    == t.rows[t.origins[j]].internal_id && t.results[j].phone
                    == t.rows[t.origins[j]].phone by {
                    if j < n {
                        assert(t.results[j] == s.results[j]);
                        assert(t.origins[j] == s.origins[j]);
                    }
                }
            } else if s.awaits(position as int) {
                lemma_awaited_leaves_room(s, position as int);
            }
        },
        _ => {},
    }
}

/// A run of the online validation over a list of rows.
pub struct Dispatcher {
    rows: Vec<CsvRow>,
    results: Vec<CsvRow>,
    origins: Vec<usize>,
    start: usize,
    phase: Phase,
}

impl View for Dispatcher {
    type V = DispatchView;

    closed spec fn view(&self) -> DispatchView {
        DispatchView {
            rows: rows_view(self.rows@),
            results: rows_view(self.results@),
            origins: self.origins@.map_values(|p: usize| p as int),
            start: self.start as int,
            phase: self.phase,
        }
    }
}

impl Dispatcher {
    /// Whether the run is in a state that a run can reach.
    pub open spec fn wf(&self) -> bool {
        self@.wf()
    }

    /// A run over `rows` that has not begun.
    pub fn new(rows: Vec<CsvRow>) -> (r: Dispatcher)
        ensures
            r@ == DispatchView::initial(rows_view(rows@)),
            r.wf(),
    {
        let total = rows.len();
        let r = Dispatcher {
            rows,
            results: Vec::new(),
            origins: Vec::new(),
            start: 0,
            phase: Phase::Idle,
        };
        proof {
            assert(r@.rows.len() == total);
            assert(r@.results =~= Seq::<RowView>::empty());
            assert(r@.origins =~= Seq::<int>::empty());
        }
        r
    }

    /// Where the run stands.
    pub fn phase(&self) -> (r: Phase)
        ensures
            r == self@.phase,
    {
        self.phase
    }

    /// The number of rows to look up.
    pub fn total(&self) -> (r: usize)
        ensures
            r == self@.total(),
    {
        self.rows.len()
    }

    /// The rows to look up.
    pub fn rows(&self) -> (r: &Vec<CsvRow>)
        ensures
            rows_view(r@) == self@.rows,
    {
        &self.rows
    }

    /// The rows whose lookup is done: what is written out, at the end of the
    /// run or when it is cut short.
    pub fn results(&self) -> (r: &Vec<CsvRow>)
        ensures
            rows_view(r@) == self@.results,
    {
        &self.results
    }

    /// Ends the use of the machine and hands out the results.
    pub fn into_results(self) -> (r: Vec<CsvRow>)
        ensures
            rows_view(r@) == self@.results,
    {
        self.results
    }

    /// The position in the input of each result's row.
    pub fn origins(&self) -> (r: &Vec<usize>)
        ensures
            r@.map_values(|p: usize| p as int) == self@.origins,
    {
        &self.origins
    }

    /// The window under way, or the last one where the run is over.
    pub fn window(&self) -> (r: Window)
        requires
            self.wf(),
        ensures
            r.start == self@.start,
            r.end == self@.end(),
    {
        let total = self.rows.len();
        if total - self.start > WINDOW_SIZE {
            Window { start: self.start, end: self.start + WINDOW_SIZE }
        } else {
            Window { start: self.start, end: total }
        }
    }

    /// Whether the row at `position` is among the results.
    fn is_recorded(&self, position: usize) -> (r: bool)
        requires
            self.wf(),
            self@.start <= position < self@.end(),
        ensures
            r == self@.origins.contains(position as int),
    {
        let mut j: usize = self.start;
        while j < self.origins.len()
            invariant
                self.wf(),
                self@.start <= position < self@.end(),
                self.start <= j <= self.origins@.len(),
                forall|k: int| self.start <= k < j ==> self@.origins[k] != position,
            decreases self.origins@.len() - j,
        {
            if self.origins[j] == position {
                assert(self@.origins[j as int] == position as int);
                return true;
            }
            j += 1;
        }
        proof {
            assert forall|k: int| 0 <= k < self@.origins.len() implies self@.origins[k]
                != position by {
                if k < self.start {
                    assert(self@.origins[k] / 10 == k / 10);
                }
            }
        }
        false
    }

    /// Takes one event, moves to the state that follows and says what the
    /// caller is to do.
    pub fn step(&mut self, event: Event) -> (action: Action)
        requires
            old(self).wf(),
        ensures
            final(self).wf(),
            final(self)@ == next_state(old(self)@, event),
            action@ == action_of(old(self)@, event),
    {
        proof {
            lemma_step_keeps_wf(self@, event);
        }
        match event {
            Event::Start => self.begin(),
            Event::Completed { position, reply } => self.record(position, reply),
            Event::Joined { elapsed_millis } => self.pace(elapsed_millis),
            Event::DelayElapsed => self.resume(),
            Event::Interrupt => self.interrupt(),
        }
    }

    /// Begins the run: the first window is to be started, or the run is
    /// complete at once where there is no row.
    pub fn begin(&mut self) -> (action: Action)
        requires
            old(self).wf(),
        ensures
            final(self).wf(),
            final(self)@ == next_state(old(self)@, Event::Start),
            action@ == action_of(old(self)@, Event::Start),
    {
        proof {
            lemma_step_keeps_wf(self@, Event::Start);
        }
        match self.phase {
            Phase::Idle => {
                if self.rows.len() == 0 {
                    self.phase = Phase::Complete;
                    Action::Finish
                } else {
                    self.phase = Phase::Dispatching;
                    Action::Dispatch(self.window())
                }
            },
            _ => Action::Rejected,
        }
    }

    /// Records the reply to the lookup for the row at `position`. The row is
    /// added to the results with the type that the reply gives it, unless the
    /// reply is a failure that ends the run.
    pub fn record(&mut self, position: usize, reply: ProviderReply) -> (action: Action)
        requires
            old(self).wf(),
        ensures
            final(self).wf(),
            final(self)@ == next_state(old(self)@, Event::Completed { position, reply }),
            action@ == action_of(old(self)@, Event::Completed { position, reply }),
    {
        proof {
            lemma_step_keeps_wf(self@, Event::Completed { position, reply });
        }
        match self.phase {
            Phase::Dispatching => {},
            _ => {
                return Action::Rejected;
            },
        }
        let window = self.window();
        if position < window.start || position >= window.end {
            return Action::Rejected;
        }
        if self.is_recorded(position) {
            return Action::Rejected;
        }
        let row = self.rows[position].clone();
        let lookup = resolve(row, reply);
        if lookup.outcome.is_fatal() {
            self.phase = Phase::Aborted;
            Action::Abort { outcome: lookup.outcome, http_warning: lookup.http_warning }
        } else {
            let ghost before = self@;
            self.results.push(lookup.row);
            self.origins.push(position);
            proof {
                assert(self@.results =~= before.results.push(
                    row_after(before.rows[position as int], reply),
                ));
                assert(self@.origins =~= before.origins.push(position as int));
            }
            Action::Recorded { outcome: lookup.outcome, http_warning: lookup.http_warning }
        }
    }

    /// Closes the window under way once all its lookups are recorded, and
    /// says how long to pause, given the time that the window took.
    pub fn pace(&mut self, elapsed_millis: u128) -> (action: Action)
        requires
            old(self).wf(),
        ensures
            final(self).wf(),
            final(self)@ == next_state(old(self)@, Event::Joined { elapsed_millis }),
            action@ == action_of(old(self)@, Event::Joined { elapsed_millis }),
    {
        proof {
            lemma_step_keeps_wf(self@, Event::Joined { elapsed_millis });
        }
        match self.phase {
            Phase::Dispatching => {
                let window = self.window();
                if self.results.len() == window.end {
                    self.phase = Phase::Waiting;
                    Action::Wait(remaining_delay_millis(elapsed_millis))
                } else {
                    Action::Rejected
                }
            },
            _ => Action::Rejected,
        }
    }

    /// Ends the pause: the next window is to be started, or the run is
    /// complete where no row is left.
    pub fn resume(&mut self) -> (action: Action)
        requires
            old(self).wf(),
        ensures
            final(self).wf(),
            final(self)@ == next_state(old(self)@, Event::DelayElapsed),
            action@ == action_of(old(self)@, Event::DelayElapsed),
    {
        proof {
            lemma_step_keeps_wf(self@, Event::DelayElapsed);
        }
        match self.phase {
            Phase::Waiting => {
                if self.rows.len() - self.start <= WINDOW_SIZE {
                    self.phase = Phase::Complete;
                    Action::Finish
                } else {
                    self.start = self.start + WINDOW_SIZE;
                    self.phase = Phase::Dispatching;
                    Action::Dispatch(self.window())
                }
            },
            _ => Action::Rejected,
        }
    }

    /// Stops a run that is under way: the results stay as they are, ready to
    /// be written out, and no further window is started.
    pub fn interrupt(&mut self) -> (action: Action)
        requires
            old(self).wf(),
        ensures
            final(self).wf(),
            final(self)@ == next_state(old(self)@, Event::Interrupt),
            action@ == action_of(old(self)@, Event::Interrupt),
    {
        proof {
            lemma_step_keeps_wf(self@, Event::Interrupt);
        }
        match self.phase {
            Phase::Dispatching => {
                self.phase = Phase::Interrupted;
                Action::Flush
            },
            Phase::Waiting => {
                self.phase = Phase::Interrupted;
                Action::Flush
            },
            _ => Action::Rejected,
        }
    }
}

} // verus!
