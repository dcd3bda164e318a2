//! A deterministic finite-state automaton over a caller-supplied alphabet.
//!
//! An [`Automaton`] is built incrementally: states are allocated with
//! [`Automaton::add_state`], labeled transitions are registered with
//! [`Automaton::add_edge`], one state is designated as the start state and any
//! number of states as accepting. The automaton is then replayed by feeding
//! symbols to [`Automaton::consume`] one at a time and querying
//! [`Automaton::accepted`] or [`Automaton::current`].
//!
//! Policies, stated once and used throughout:
//! - Until a start state is designated there is no current state: `consume`
//!   is a no-op, `accepted` is `false` and `current` is `None`.
//! - When a state carries several transitions on an equal symbol, the most
//!   recently added one wins every lookup (last write wins).
//! - Feeding a symbol with no matching transition leaves the cursor where it
//!   is; it is not an error.
//! - The graph-building operations fail with [`AutomatonError::InvalidState`]
//!   when they name a state that was never allocated, and leave the automaton
//!   unchanged in that case.

use vstd::prelude::*;
use vstd::std_specs::cmp::PartialEqSpec;

verus! {

/// The one kind of error the automaton reports: a graph-building operation
/// named a state identity that was never returned by `add_state`.
#[derive(Clone, Copy, Debug, PartialEq, Eq, Structural)]
pub enum AutomatonError {
    InvalidState,
}

/// A directed, labeled transition: from the state that owns it, reading
/// `symbol` moves the cursor to `target`.
#[derive(Debug)]
pub struct Edge<T> {
    pub symbol: T,
    pub target: usize,
}

/// The mathematical model of an automaton.
///
/// `edges[s]` holds the outgoing transitions of state `s`, oldest first; the
/// number of allocated states is `edges.len()`. `accepting` is the set of
/// accepting states, `start` the designated start state and `cursor` the live
/// simulation position.
#[verifier::ext_equal]
pub struct AutomatonView<T> {
    pub edges: Seq<Seq<Edge<T>>>,
    pub start: Option<usize>,
    pub cursor: Option<usize>,
    pub accepting: Set<usize>,
}

/// A deterministic finite-state automaton over alphabet `T`.
///
/// Symbols are compared with `==`; the verified contracts describe the
/// behaviour through `T`'s equality specification (`eq_spec`), which vstd
/// provides for the primitive integer types, `bool`, tuples, `Option` and
/// `Vec` of such types, among others.
#[derive(Debug)]
pub struct Automaton<T> {
    states: Vec<Vec<Edge<T>>>,
    start: Option<usize>,
    current: Option<usize>,
    end: Vec<usize>,
}

impl<T> View for Automaton<T> {
    type V = AutomatonView<T>;

    closed spec fn view(&self) -> AutomatonView<T> {
        AutomatonView {
            edges: self.states@.map_values(|row: Vec<Edge<T>>| row@),
            start: self.start,
            cursor: self.current,
            accepting: self.end@.to_set(),
        }
    }
}

impl<T> AutomatonView<T> {
    /// Well-formedness: every transition target, the start state, the cursor
    /// and every accepting state denote allocated states, and an automaton
    /// without a start state has no current state either.
    pub open spec fn wf(self) -> bool {
        &&& forall|s: int, i: int|
            0 <= s < self.edges.len() && 0 <= i < self.edges[s].len()
                ==> (#[trigger] self.edges[s][i]).target < self.edges.len()
        &&& (self.start matches Some(s) ==> (s as int) < self.edges.len())
        &&& (self.cursor matches Some(c) ==> (c as int) < self.edges.len())
        &&& (forall|x: usize| #[trigger] self.accepting.contains(x) ==> (x as int) < self.edges.len())
        &&& (self.start is None ==> self.cursor is None)
    }

    /// The model after allocating one fresh state: one more row of outgoing
    /// transitions, initially empty; everything else untouched.
    pub open spec fn with_state(self) -> AutomatonView<T> {
        AutomatonView { edges: self.edges.push(Seq::empty()), ..self }
    }

    /// The model after registering a transition: the new edge is appended to
    /// the source state's list, so that it is found first by `lookup`.
    pub open spec fn with_edge(self, source: usize, target: usize, symbol: T) -> AutomatonView<T> {
        AutomatonView {
            edges: self.edges.update(
                source as int,
                self.edges[source as int].push(Edge { symbol, target }),
            ),
            ..self
        }
    }

    /// The model after designating `state` as the start state: the cursor is
    /// relocated there as well.
    pub open spec fn with_start(self, state: usize) -> AutomatonView<T> {
        AutomatonView { start: Some(state), cursor: Some(state), ..self }
    }

    /// The model after marking `state` as accepting.
    pub open spec fn with_end(self, state: usize) -> AutomatonView<T> {
        AutomatonView { accepting: self.accepting.insert(state), ..self }
    }

    /// The model after a restart: the cursor returns to the start state, or
    /// to "no current state" when no start was ever designated.
    pub open spec fn restarted(self) -> AutomatonView<T> {
        AutomatonView { cursor: self.start, ..self }
    }

    /// Whether the automaton currently sits in an accepting state.
    pub open spec fn accepts(self) -> bool {
        match self.cursor {
            None => false,
            Some(c) => self.accepting.contains(c),
        }
    }
}

/// The target of the transition taken from a state with outgoing edge list
/// `edges` on `symbol`, or `None` when no edge matches. The list is scanned
/// from its most recently added edge backwards, so the latest edge on an
/// equal symbol wins.
pub open spec fn lookup<T: PartialEqSpec>(edges: Seq<Edge<T>>, symbol: T) -> Option<usize>
    decreases edges.len(),
{
    if edges.len() == 0 {
        None
    } else if edges.last().symbol.eq_spec(&symbol) {
        Some(edges.last().target)
    } else {
        lookup(edges.drop_last(), symbol)
    }
}

/// When the edge at position `i` matches `symbol` and no later (more
/// recently added) edge does, `lookup` returns that edge's target.
proof fn lemma_lookup_at<T: PartialEqSpec>(edges: Seq<Edge<T>>, symbol: T, i: int)
    requires
        0 <= i < edges.len(),
        edges[i].symbol.eq_spec(&symbol),
        forall|j: int| i < j < edges.len() ==> !(#[trigger] edges[j]).symbol.eq_spec(&symbol),
    ensures
        lookup(edges, symbol) == Some(edges[i].target),
    decreases edges.len(),
{
    if i < edges.len() - 1 {
        assert(edges.drop_last()[i] == edges[i]);
        lemma_lookup_at(edges.drop_last(), symbol, i);
    }
}

/// When no edge matches `symbol`, `lookup` returns `None`.
proof fn lemma_lookup_none<T: PartialEqSpec>(edges: Seq<Edge<T>>, symbol: T)
    requires
        forall|j: int| 0 <= j < edges.len() ==> !(#[trigger] edges[j]).symbol.eq_spec(&symbol),
    ensures
        lookup(edges, symbol) is None,
    decreases edges.len(),
{
    if edges.len() > 0 {
        lemma_lookup_none(edges.drop_last(), symbol);
    }
}

impl<T: PartialEqSpec> AutomatonView<T> {
    /// Where the cursor sits after one `consume(symbol)`: moved along the
    /// matching transition when there is one, left in place when there is
    /// none, and still absent when the automaton was never started.
    pub open spec fn step_cursor(self, symbol: T) -> Option<usize> {
        match self.cursor {
            None => None,
            Some(c) => match lookup(self.edges[c as int], symbol) {
                Some(t) => Some(t),
                None => Some(c),
            },
        }
    }

    /// The model after one `consume(symbol)`: only the cursor changes.
    pub open spec fn stepped(self, symbol: T) -> AutomatonView<T> {
        AutomatonView { cursor: self.step_cursor(symbol), ..self }
    }

    /// The model after consuming a whole sequence of symbols in order.
    pub open spec fn stepped_all(self, symbols: Seq<T>) -> AutomatonView<T>
        decreases symbols.len(),
    {
        if symbols.len() == 0 {
            self
        } else {
            self.stepped(symbols[0]).stepped_all(symbols.skip(1))
        }
    }
}

/// A run of `add_state` calls, exactly as `add_state`'s contract describes
/// it: `views` are the automaton models before and after each call, and
/// `ids` the identities the calls returned.
pub open spec fn state_allocation_run<T>(views: Seq<AutomatonView<T>>, ids: Seq<usize>) -> bool {
    &&& views.len() == ids.len() + 1
    &&& forall|k: int|
        0 <= k < ids.len()
            ==> views[k + 1] == views[k].with_state() && (#[trigger] ids[k]) as nat
            == views[k].edges.len()
}

/// Identities handed out by a run of `add_state` calls are unique and
/// strictly increasing in order of allocation.
pub proof fn lemma_state_ids_strictly_increase<T>(views: Seq<AutomatonView<T>>, ids: Seq<usize>)
    requires
        state_allocation_run(views, ids),
    ensures
        forall|i: int, j: int| 0 <= i < j < ids.len() ==> ids[i] < ids[j],
        forall|i: int, j: int| 0 <= i < j < ids.len() ==> ids[i] != ids[j],
{
    assert forall|i: int, j: int| 0 <= i < j < ids.len() implies ids[i] < ids[j] by {
        lemma_state_count_after(views, ids, i);
        lemma_state_count_after(views, ids, j);
    }
}

/// After `k` state allocations the state count has grown by `k`.
proof fn lemma_state_count_after<T>(views: Seq<AutomatonView<T>>, ids: Seq<usize>, k: int)
    requires
        state_allocation_run(views, ids),
        0 <= k <= ids.len(),
    ensures
        views[k].edges.len() == views[0].edges.len() + k,
    decreases k,
{
    if k > 0 {
        lemma_state_count_after(views, ids, k - 1);
        assert(ids[k - 1] as nat == views[k - 1].edges.len());
    }
}

/// `restart` puts the cursor back on the start state no matter how many
/// `consume` steps ran before, and restarting twice in a row is the same as
/// restarting once.
pub proof fn lemma_restart_returns_to_start<T: PartialEqSpec>(
    v: AutomatonView<T>,
    symbols: Seq<T>,
)
    ensures
        v.stepped_all(symbols).restarted() == v.restarted(),
        v.restarted().restarted() == v.restarted(),
    decreases symbols.len(),
{
    assert(v.restarted().restarted() =~= v.restarted());
    if symbols.len() > 0 {
        lemma_restart_returns_to_start(v.stepped(symbols[0]), symbols.skip(1));
        assert(v.stepped(symbols[0]).restarted() =~= v.restarted());
    }
}

/// Immediately after `set_start(s)` the automaton accepts iff `s` is in the
/// accepting set, that is, iff `s` was previously passed to `add_end`.
pub proof fn lemma_accepts_right_after_start<T>(v: AutomatonView<T>, s: usize)
    ensures
        v.with_start(s).accepts() <==> v.accepting.contains(s),
{
}

/// Round trip: consuming a symbol with no matching outgoing transition from
/// the current state leaves the whole automaton, cursor included, exactly as
/// it was.
pub proof fn lemma_unmatched_symbol_is_noop<T: PartialEqSpec>(v: AutomatonView<T>, symbol: T)
    requires
        v.cursor matches Some(c) ==> lookup(v.edges[c as int], symbol) is None,
    ensures
        v.stepped(symbol) == v,
{
    assert(v.stepped(symbol) =~= v);
}

/// Last write wins: after `add_edge(s, t1, symbol)` and then
/// `add_edge(s, t2, symbol)`, consuming `symbol` with the cursor on `s`
/// moves it to `t2`, not to `t1`. Stated for every symbol that is equal to
/// itself under the alphabet's equality specification.
pub proof fn lemma_latest_edge_wins<T: PartialEqSpec>(
    v: AutomatonView<T>,
    s: usize,
    t1: usize,
    t2: usize,
    symbol: T,
)
    requires
        (s as int) < v.edges.len(),
        v.cursor == Some(s),
        symbol.eq_spec(&symbol),
    ensures
        v.with_edge(s, t1, symbol).with_edge(s, t2, symbol).stepped(symbol).cursor == Some(t2),
{
    let w = v.with_edge(s, t1, symbol).with_edge(s, t2, symbol);
    assert(w.edges[s as int].last() == (Edge { symbol, target: t2 }));
    assert(lookup(w.edges[s as int], symbol) == Some(t2));
}

/// Marking the same state as accepting twice changes nothing over marking it
/// once: the model after two `add_end(s)` calls equals the model after one.
pub proof fn lemma_add_end_idempotent<T>(v: AutomatonView<T>, s: usize)
    ensures
        v.with_end(s).with_end(s) == v.with_end(s),
{
    assert(v.with_end(s).with_end(s) =~~= v.with_end(s));
}

impl<T: Eq + PartialEqSpec> Automaton<T> {
    /// Creates a new empty automaton: no states, no start state, no current
    /// state and no accepting states.
    pub fn new() -> (a: Automaton<T>)
        ensures
            a@.wf(),
            a@.edges == Seq::<Seq<Edge<T>>>::empty(),
            a@.start is None,
            a@.cursor is None,
            a@.accepting == Set::<usize>::empty(),
    {
        let a = Automaton {
            states: Vec::new(),
            start: None,
            current: None,
            end: Vec::new(),
        };
        proof {
            assert(a@.edges =~= Seq::<Seq<Edge<T>>>::empty());
            assert(a@.accepting =~= Set::<usize>::empty());
        }
        a
    }

    /// Allocates a fresh state with no outgoing transitions and returns its
    /// stable identity: the number of states allocated before it. Never
    /// fails.
    pub fn add_state(&mut self) -> (id: usize)
        requires
            old(self)@.wf(),
        ensures
            final(self)@.wf(),
            id as nat == old(self)@.edges.len(),
            final(self)@ == old(self)@.with_state(),
    {
        let id = self.states.len();
        self.states.push(Vec::new());
        proof {
            assert(self@ =~~= old(self)@.with_state());
        }
        id
    }

    /// Registers a transition from `source` to `target` labeled `symbol`.
    ///
    /// Duplicate policy (last write wins): when `source` already has a
    /// transition on an equal symbol, the edge added here wins every future
    /// lookup. Fails with `InvalidState`, leaving the automaton unchanged,
    /// iff `source` or `target` was never allocated.
    pub fn add_edge(&mut self, source: usize, target: usize, symbol: T) -> (r: Result<
        (),
        AutomatonError,
    >)
        requires
            old(self)@.wf(),
        ensures
            final(self)@.wf(),
            r is Ok <==> ((source as int) < old(self)@.edges.len()
                && (target as int) < old(self)@.edges.len()),
            r is Err ==> r == Err::<(), AutomatonError>(AutomatonError::InvalidState),
            r is Err ==> *final(self) == *old(self),
            r is Ok ==> final(self)@ == old(self)@.with_edge(source, target, symbol),
    {
        if source >= self.states.len() || target >= self.states.len() {
            return Err(AutomatonError::InvalidState);
        }
        self.states[source].push(Edge { symbol, target });
        proof {
            assert(self@ =~~= old(self)@.with_edge(source, target, symbol));
        }
        Ok(())
    }

    /// Designates the start state and resets the current cursor to it.
    /// Fails with `InvalidState`, leaving the automaton unchanged, iff the
    /// state was never allocated.
    pub fn set_start(&mut self, state: usize) -> (r: Result<(), AutomatonError>)
        requires
            old(self)@.wf(),
        ensures
            final(self)@.wf(),
            r is Ok <==> (state as int) < old(self)@.edges.len(),
            r is Err ==> r == Err::<(), AutomatonError>(AutomatonError::InvalidState),
            r is Err ==> *final(self) == *old(self),
            r is Ok ==> final(self)@ == old(self)@.with_start(state),
    {
        if state >= self.states.len() {
            return Err(AutomatonError::InvalidState);
        }
        self.start = Some(state);
        self.current = Some(state);
        proof {
            assert(self@ =~~= old(self)@.with_start(state));
        }
        Ok(())
    }

    /// Marks a state as accepting. Idempotent: marking the same state twice
    /// has no additional effect, not even on the stored representation.
    /// Fails with `InvalidState`, leaving the automaton unchanged, iff the
    /// state was never allocated.
    pub fn add_end(&mut self, state: usize) -> (r: Result<(), AutomatonError>)
        requires
            old(self)@.wf(),
        ensures
            final(self)@.wf(),
            r is Ok <==> (state as int) < old(self)@.edges.len(),
            r is Err ==> r == Err::<(), AutomatonError>(AutomatonError::InvalidState),
            r is Err ==> *final(self) == *old(self),
            r is Ok ==> final(self)@ == old(self)@.with_end(state),
            r is Ok && old(self)@.accepting.contains(state) ==> *final(self) == *old(self),
    {
        if state >= self.states.len() {
            return Err(AutomatonError::InvalidState);
        }
        if self.end_contains(state) {
            proof {
                assert(self@.accepting.insert(state) =~= self@.accepting);
                assert(self@ =~~= old(self)@.with_end(state));
            }
            return Ok(());
        }
        self.end.push(state);
        proof {
            old(self).end@.lemma_push_to_set_commute(state);
            assert(self@ =~~= old(self)@.with_end(state));
        }
        Ok(())
    }

    /// Consumes one symbol: a total, non-failing transition step.
    ///
    /// When the current state has a transition on an equal symbol, the cursor
    /// moves to the target of the most recently added such transition; when
    /// it has none, the cursor stays where it is; when the automaton was
    /// never started, nothing happens at all. The graph, the start state and
    /// the accepting set are never touched.
    ///
    /// The cursor's movement is pinned down (`stepped`) for every alphabet
    /// whose `==` obeys its equality specification; for any other alphabet
    /// the cursor still lands on an allocated state and nothing else changes.
    pub fn consume(&mut self, symbol: T)
        requires
            old(self)@.wf(),
        ensures
            final(self)@.wf(),
            (AutomatonView { cursor: old(self)@.cursor, ..final(self)@ }) == old(self)@,
            old(self)@.cursor is None ==> *final(self) == *old(self),
            T::obeys_eq_spec() ==> final(self)@ == old(self)@.stepped(symbol),
    {
        let c: usize = match self.current {
            None => {
                proof {
                    assert((AutomatonView { cursor: old(self)@.cursor, ..self@ }) =~= old(self)@);
                    assert(old(self)@.stepped(symbol) =~= old(self)@);
                }
                return;
            },
            Some(c) => c,
        };
        let mut i: usize = self.states[c].len();
        while i > 0
            invariant
                *self == *old(self),
                old(self)@.wf(),
                old(self)@.cursor == Some(c),
                (c as int) < self@.edges.len(),
                i <= self@.edges[c as int].len(),
                T::obeys_eq_spec() ==> forall|j: int|
                    i <= j < self@.edges[c as int].len()
                        ==> !(#[trigger] self@.edges[c as int][j]).symbol.eq_spec(&symbol),
            decreases i,
        {
            i = i - 1;
            if self.states[c][i].symbol == symbol {
                let t: usize = self.states[c][i].target;
                self.current = Some(t);
                proof {
                    assert((AutomatonView { cursor: old(self)@.cursor, ..self@ }) =~= old(self)@);
                    if T::obeys_eq_spec() {
                        lemma_lookup_at(old(self)@.edges[c as int], symbol, i as int);
                        assert(self@ =~= old(self)@.stepped(symbol));
                    }
                }
                return;
            }
        }
        proof {
            assert((AutomatonView { cursor: old(self)@.cursor, ..self@ }) =~= old(self)@);
            if T::obeys_eq_spec() {
                lemma_lookup_none(old(self)@.edges[c as int], symbol);
                assert(old(self)@.stepped(symbol) =~= old(self)@);
            }
        }
    }

    /// Restarts the simulation: the cursor returns to the start state, or to
    /// "no current state" when no start was ever designated. Never fails,
    /// and never touches the graph, the start state or the accepting set.
    pub fn restart(&mut self)
        requires
            old(self)@.wf(),
        ensures
            final(self)@.wf(),
            final(self)@ == old(self)@.restarted(),
    {
        self.current = self.start;
        proof {
            assert(self@ =~= old(self)@.restarted());
        }
    }

    /// Whether the current state is an accepting state; `false` when there
    /// is no current state. Read-only, never fails.
    pub fn accepted(&self) -> (r: bool)
        ensures
            r == self@.accepts(),
    {
        match self.current {
            None => false,
            Some(c) => self.end_contains(c),
        }
    }

    /// The current state's identity, or `None` when the automaton was never
    /// started. Read-only, never fails.
    pub fn current(&self) -> (r: Option<usize>)
        ensures
            r == self@.cursor,
    {
        self.current
    }

    /// The designated start state, or `None` when none was designated yet.
    /// Read-only, never fails.
    pub fn start(&self) -> (r: Option<usize>)
        ensures
            r == self@.start,
    {
        self.start
    }

    /// Whether `state` is in the accepting set.
    fn end_contains(&self, state: usize) -> (r: bool)
        ensures
            r == self@.accepting.contains(state),
    {
        let mut i: usize = 0;
        while i < self.end.len()
            invariant
                i <= self.end@.len(),
                forall|j: int| 0 <= j < i ==> self.end@[j] != state,
            decreases self.end@.len() - i,
        {
            if self.end[i] == state {
                return true;
            }
            i += 1;
        }
        false
    }
}

} // verus!
