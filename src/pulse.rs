use vstd::prelude::*;

use crate::rate::{speed_of, wind_speed};

verus! {

/// Default debounce window: 18 ms, in microseconds.
pub const DEFAULT_DEBOUNCE_WINDOW: u64 = 18_000;

/// The abstract state of a pulse counter.
pub struct PulseState {
    /// Pulses accepted since the last drain.
    pub count: nat,
    /// Time of the last edge that passed the debounce test.
    pub last_edge: Option<int>,
    /// Time of the last drain, which starts the next sampling period.
    pub last_read: Option<int>,
    /// Minimum time between two counted edges.
    pub window: int,
}

/// Debounced pulse counter of the anemometer rotor.
///
/// Edges closer than the debounce window to the last accepted edge are
/// contact bounce and are dropped. The count grows by one per accepted edge
/// until a drain takes it and sets it back to zero. Times are microseconds.
pub struct WindSpeedData {
    count: u64,
    last_edge: Option<u64>,
    last_read: Option<u64>,
    window: u64,
}

/// Whether an edge at `now` passes the debounce test in state `s`.
pub open spec fn accepts(s: PulseState, now: int) -> bool {
    match s.last_edge {
        None => true,
        Some(t) => now - t >= s.window,
    }
}

/// The state after a hardware edge at `now`.
pub open spec fn after_edge(s: PulseState, now: int) -> PulseState {
    if accepts(s, now) {
        PulseState { count: s.count + 1, last_edge: Some(now), ..s }
    } else {
        s
    }
}

/// The state after a run of poll outcomes: `Some(t)` is an edge at `t`,
/// `None` a poll that ended without an edge.
pub open spec fn after_polls(s: PulseState, polls: Seq<Option<u64>>) -> PulseState
    decreases polls.len(),
{
    if polls.len() == 0 {
        s
    } else {
        let before = after_polls(s, polls.drop_last());
        match polls.last() {
            Some(t) => after_edge(before, t as int),
            None => before,
        }
    }
}

/// Number of edges among the poll outcomes.
pub open spec fn edge_count(polls: Seq<Option<u64>>) -> nat
    decreases polls.len(),
{
    if polls.len() == 0 {
        0
    } else {
        edge_count(polls.drop_last()) + if polls.last() is Some {
            1nat
        } else {
            0nat
        }
    }
}

/// The state after a drain at `now`: no pulses, and `now` starts the next
/// sampling period.
pub open spec fn drained_at(s: PulseState, now: int) -> PulseState {
    PulseState { count: 0, last_read: Some(now), ..s }
}

/// The state after a drain that starts no sampling period.
pub open spec fn drained(s: PulseState) -> PulseState {
    PulseState { count: 0, ..s }
}

/// The speed that a drain at `now` measures: the pulses counted over the
/// time since the previous drain, when there was one and the clock moved
/// forward since.
pub open spec fn speed_since(s: PulseState, now: int) -> Option<int> {
    match s.last_read {
        Some(t) => if now > t {
            Some(speed_of(s.count as int, now - t))
        } else {
            None
        },
        None => None,
    }
}

/// A run of edges adds at most one to the count per edge.
proof fn lemma_after_polls_bounded(s: PulseState, polls: Seq<Option<u64>>)
    ensures
        s.count <= after_polls(s, polls).count <= s.count + edge_count(polls),
        after_polls(s, polls).window == s.window,
        after_polls(s, polls).last_read == s.last_read,
    decreases polls.len(),
{
    if polls.len() > 0 {
        lemma_after_polls_bounded(s, polls.drop_last());
    }
}

/// The poll outcomes of a run of edges at the given times.
pub open spec fn edges_as_polls(edges: Seq<u64>) -> Seq<Option<u64>> {
    edges.map_values(|t: u64| Some(t))
}

/// A burst of edges spaced less than the debounce window apart counts as one
/// pulse, when the burst starts a pulse (its first edge passes the debounce
/// test) and the whole burst lies within the window of its first edge.
pub proof fn lemma_burst_counts_once(s: PulseState, edges: Seq<u64>)
    requires
        edges.len() > 0,
        accepts(s, edges[0] as int),
        forall|i: int|
            0 <= i < edges.len() - 1 ==> #[trigger] edges[i] <= edges[i + 1] < edges[i] + s.window,
        forall|i: int| 0 <= i < edges.len() ==> #[trigger] edges[i] - edges[0] < s.window,
    ensures
        after_polls(s, edges_as_polls(edges)).count == s.count + 1,
        after_polls(s, edges_as_polls(edges)).last_edge == Some(edges[0] as int),
    decreases edges.len(),
{
    let polls = edges_as_polls(edges);
    if edges.len() == 1 {
        assert(polls.drop_last() =~= Seq::<Option<u64>>::empty());
        assert(after_polls(s, polls.drop_last()) == s);
        assert(polls.last() == Some(edges[0]));
    } else {
        let rest = edges.drop_last();
        assert(polls.drop_last() =~= edges_as_polls(rest));
        assert(polls.last() == Some(edges.last()));
        lemma_after_polls_bounded(s, polls.drop_last());
        lemma_burst_counts_once(s, rest);
        assert(edges.last() - edges[0] < s.window);
    }
}

/// Edges spaced strictly more than the debounce window apart are all
/// counted, when the first of them passes the debounce test.
pub proof fn lemma_spaced_edges_all_counted(s: PulseState, edges: Seq<u64>)
    requires
        edges.len() > 0 ==> accepts(s, edges[0] as int),
        forall|i: int| 0 <= i < edges.len() - 1 ==> edges[i + 1] - #[trigger] edges[i] > s.window,
    ensures
        after_polls(s, edges_as_polls(edges)).count == s.count + edges.len(),
        edges.len() > 0 ==> after_polls(s, edges_as_polls(edges)).last_edge == Some(
            edges.last() as int,
        ),
    decreases edges.len(),
{
    let polls = edges_as_polls(edges);
    if edges.len() == 1 {
        assert(polls.drop_last() =~= Seq::<Option<u64>>::empty());
        assert(after_polls(s, polls.drop_last()) == s);
        assert(polls.last() == Some(edges[0]));
    } else if edges.len() > 1 {
        let rest = edges.drop_last();
        assert(polls.drop_last() =~= edges_as_polls(rest));
        assert(polls.last() == Some(edges.last()));
        lemma_after_polls_bounded(s, polls.drop_last());
        lemma_spaced_edges_all_counted(s, rest);
        assert(edges[edges.len() - 1] - edges[edges.len() - 2] > s.window);
    }
}

/// Draining twice with no edge in between: the first drain takes the count,
/// the second finds zero and leaves the counter as the first left it.
pub proof fn lemma_drain_twice(s: PulseState)
    ensures
        drained(s).count == 0,
        drained(drained(s)) == drained(s),
{
}

impl View for WindSpeedData {
    type V = PulseState;

    closed spec fn view(&self) -> PulseState {
        PulseState {
            count: self.count as nat,
            last_edge: match self.last_edge {
                Some(t) => Some(t as int),
                None => None,
            },
            last_read: match self.last_read {
                Some(t) => Some(t as int),
                None => None,
            },
            window: self.window as int,
        }
    }
}

impl WindSpeedData {
    /// A counter with no pulses, no edge seen, no drain yet, and the default
    /// debounce window.
    pub fn new() -> (d: WindSpeedData)
        ensures
            d@ == (PulseState {
                count: 0,
                last_edge: None,
                last_read: None,
                window: DEFAULT_DEBOUNCE_WINDOW as int,
            }),
    {
        WindSpeedData { count: 0, last_edge: None, last_read: None, window: DEFAULT_DEBOUNCE_WINDOW }
    }

    /// A counter like [`WindSpeedData::new`] with the given debounce window.
    pub fn with_debounce_window(window: u64) -> (d: WindSpeedData)
        ensures
            d@ == (PulseState { count: 0, last_edge: None, last_read: None, window: window as int }),
    {
        WindSpeedData { count: 0, last_edge: None, last_read: None, window }
    }

    /// The pulses counted since the last drain.
    pub fn count(&self) -> (c: u64)
        ensures
            c == self@.count,
    {
        self.count
    }

    /// Counts one pulse.
    pub fn increase(&mut self)
        requires
            old(self)@.count < u64::MAX,
        ensures
            final(self)@ == (PulseState { count: old(self)@.count + 1, ..old(self)@ }),
    {
        self.count = self.count + 1;
    }

    /// Handles one hardware edge at `now`: counts it unless it falls within
    /// the debounce window of the last accepted edge.
    pub fn register_edge(&mut self, now: u64) -> (counted: bool)
        requires
            old(self)@.count < u64::MAX,
        ensures
            counted == accepts(old(self)@, now as int),
            final(self)@ == after_edge(old(self)@, now as int),
    {
        let counted = match self.last_edge {
            None => true,
            Some(t) => now >= t && now - t >= self.window,
        };
        if counted {
            self.increase();
            self.last_edge = Some(now);
        }
        counted
    }

    /// Takes the pulses counted so far and sets the count back to zero.
    pub fn take_and_reset(&mut self) -> (previous: u64)
        ensures
            previous == old(self)@.count,
            final(self)@ == drained(old(self)@),
    {
        let previous = self.count;
        self.count = 0;
        previous
    }

    /// Drains the counter at `now` and returns the wind speed, in micrometres
    /// per second, over the time since the previous drain; `None` for the
    /// first drain, or when the clock did not move forward.
    pub fn get_speed(&mut self, now: u64) -> (speed: Option<u128>)
        ensures
            final(self)@ == drained_at(old(self)@, now as int),
            speed_since(old(self)@, now as int) == match speed {
                Some(v) => Some(v as int),
                None => None,
            },
    {
        let count = self.take_and_reset();
        let previous = self.last_read;
        self.last_read = Some(now);
        match previous {
            Some(t) => if now > t {
                Some(wind_speed(count, now - t))
            } else {
                None
            },
            None => None,
        }
    }
}

/// Feeds a run of poll outcomes to the counter, in order: each edge goes
/// through the debounce test, and a poll that ended without an edge is
/// passed over.
pub fn counting_sync_loop(data: &mut WindSpeedData, polls: &Vec<Option<u64>>)
    requires
        old(data)@.count + polls@.len() <= u64::MAX,
    ensures
        final(data)@ == after_polls(old(data)@, polls@),
{
    let mut i: usize = 0;
    while i < polls.len()
        invariant
            i <= polls@.len(),
            data@ == after_polls(old(data)@, polls@.take(i as int)),
            old(data)@.count + polls@.len() <= u64::MAX,
        decreases polls@.len() - i,
    {
        proof {
            assert(polls@.take(i as int + 1).drop_last() =~= polls@.take(i as int));
            lemma_after_polls_bounded(old(data)@, polls@.take(i as int));
            lemma_edge_count_bounded(polls@.take(i as int));
        }
        match polls[i] {
            Some(t) => {
                data.register_edge(t);
            },
            None => {},
        }
        i = i + 1;
    }
    assert(polls@.take(polls@.len() as int) =~= polls@);
}

/// There are no more edges than poll outcomes.
proof fn lemma_edge_count_bounded(polls: Seq<Option<u64>>)
    ensures
        edge_count(polls) <= polls.len(),
    decreases polls.len(),
{
    if polls.len() > 0 {
        lemma_edge_count_bounded(polls.drop_last());
    }
}

/// Pacing of the simulated sensor, which emits one pulse, then sleeps.
///
/// It starts at one pulse every tenth of a sampling `period`; once more than
/// two periods have passed since the cycle started it speeds up to one pulse
/// every hundredth of a period; after three periods the cycle starts over.
/// Given the time `since_start` of the current cycle and the current `gap`,
/// returns the next gap and whether a new cycle starts now.
pub fn simulated_pulse_gap(since_start: u64, period: u64, gap: u64) -> (r: (u64, bool))
    ensures
        since_start > 3 * period ==> r == (period / 10, true),
        2 * period < since_start <= 3 * period ==> r == (period / 100, false),
        since_start <= 2 * period ==> r == (gap, false),
{
    let span = period as u128;
    if since_start as u128 > 3 * span {
        (period / 10, true)
    } else if since_start as u128 > 2 * span {
        (period / 100, false)
    } else {
        (gap, false)
    }
}

} // verus!
