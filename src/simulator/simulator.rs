use vstd::prelude::*;
use crate::hlt::direction::Direction;
use crate::hlt::game::Game;
use crate::hlt::game_map::{moves_towards, unsafe_moves};
use crate::hlt::position::Position;
use crate::hlt::ship::Ship;
use crate::hlt::ShipId;
use crate::simulator::action::Action;
use crate::simulator::memory::{Memory, MemoryView};
use crate::simulator::state_difference::DiffView;
use crate::simulator::turn_state::{
    current_turn_of, grid_of, lemma_cardinal_move, move_cost, next_turn_of, TurnState, TurnView,
};
use crate::simulator::Halite;

verus! {

/// What a simulator holds: the chain of turns from now on, the turn the
/// caller stands at, the memory, and what it knows of the map.
pub struct SimView {
    pub turns: Seq<TurnView>,
    pub index: int,
    pub memory: MemoryView,
    pub shipyard: Position,
    pub width: int,
    pub height: int,
}

/// The diffs of memory after each turn of `turns` recorded its committed layers, in order.
pub open spec fn saved_diffs(diffs: Map<u32, DiffView>, turns: Seq<TurnView>) -> Map<u32, DiffView>
    decreases turns.len(),
{
    if turns.len() == 0 {
        diffs
    } else {
        saved_diffs(diffs, turns.drop_last()).insert(
            turns.last().turn_number,
            turns.last().saved.extend(turns.last().applied),
        )
    }
}

/// The simulator that `Simulator::new` builds from the game and the memory.
pub open spec fn fresh_simulator(game: Game, memory: MemoryView) -> SimView {
    let t0 = current_turn_of(game, memory);
    SimView {
        turns: seq![t0, next_turn_of(t0, memory)],
        index: 0,
        memory,
        shipyard: game.me.shipyard,
        width: game.game_map.width as int,
        height: game.game_map.height as int,
    }
}

impl SimView {
    pub open spec fn wf(self) -> bool {
        &&& self.index + 1 < self.turns.len()
        &&& self.wf_chain()
    }

    /// `wf` but for the turn after the current one, which may be missing.
    pub open spec fn wf_chain(self) -> bool {
        &&& 0 <= self.index < self.turns.len()
        &&& self.turns[0].turn_number + self.turns.len() <= u32::MAX + 1
        &&& forall|i: int| 0 <= i < self.turns.len() ==> (#[trigger] self.turns[i]).wf()
        &&& forall|i: int|
            0 <= i < self.turns.len() ==> (#[trigger] self.turns[i]).turn_number
                == self.turns[0].turn_number + i
        &&& forall|i: int|
            0 <= i < self.turns.len() ==> (#[trigger] self.turns[i]).grid == self.turns[0].grid
                && self.turns[i].base_ships == self.turns[0].base_ships
        &&& self.memory.wf()
        &&& 1 <= self.width <= i32::MAX
        &&& 1 <= self.height <= i32::MAX
    }

    pub open spec fn current(self) -> TurnView {
        self.turns[self.index]
    }

    pub open spec fn next(self) -> TurnView {
        self.turns[self.index + 1]
    }

    /// The chain grown by one turn, if needed, so that the turn after the
    /// current one exists.
    pub open spec fn with_next(self) -> SimView {
        if self.index + 1 < self.turns.len() {
            self
        } else {
            let last = self.turns.last();
            SimView { turns: self.turns.push(next_turn_of(last, self.memory)), ..self }
        }
    }

    /// Whether `advance` may take the action: the next turn, with the current
    /// turn's speculative changes, knows its ship, and the turn number after
    /// the one the chain may grow to fits.
    pub open spec fn can_advance(self, action: Action) -> bool {
        &&& (TurnView { undoable: self.current().undoable, ..self.next() }).can_do(action)
        &&& self.turns[0].turn_number + self.index + 3 <= u32::MAX
    }

    /// The next turn takes over the speculative changes of the current one,
    /// then the action's; the caller then stands at the next turn.
    pub open spec fn after_advance(self, action: Action) -> SimView {
        let i = self.index;
        let stepped = (TurnView { undoable: self.turns[i].undoable, ..self.turns[i + 1] }).after_action(
            action,
        );
        (SimView { turns: self.turns.update(i + 1, stepped), index: i + 1, ..self }).with_next()
    }

    /// Every speculative layer cleared, back at the first turn.
    pub open spec fn after_rollback(self) -> SimView {
        SimView {
            turns: self.turns.map_values(|t: TurnView| TurnView { undoable: DiffView::empty(), ..t }),
            index: 0,
            ..self
        }
    }

    /// Every speculative layer folded into the committed one, back at the first turn.
    pub open spec fn after_apply(self) -> SimView {
        SimView {
            turns: self.turns.map_values(
                |t: TurnView|
                    TurnView {
                        applied: t.applied.extend(t.undoable),
                        undoable: DiffView::empty(),
                        ..t
                    },
            ),
            index: 0,
            ..self
        }
    }

    /// Every turn's committed layers recorded in memory.
    pub open spec fn after_save(self) -> SimView {
        SimView {
            memory: MemoryView { diffs: saved_diffs(self.memory.diffs, self.turns), ..self.memory },
            ..self
        }
    }
}

/// Computes the outcome of actions a few turns ahead. The real game's data
/// is copied once per real turn and shared by every turn of the chain.
pub struct Simulator {
    pub memory: Memory,
    shipyard: Position,
    width: usize,
    height: usize,
    future_turns: Vec<TurnState>,
    current_turn_index: usize,
}

impl View for Simulator {
    type V = SimView;

    closed spec fn view(&self) -> SimView {
        SimView {
            turns: self.future_turns@.map_values(|t: TurnState| t@),
            index: self.current_turn_index as int,
            memory: self.memory@,
            shipyard: self.shipyard,
            width: self.width as int,
            height: self.height as int,
        }
    }
}

impl Simulator {
    /// The chain starts at the real game's turn, and the turn after it is built
    /// at once, so that `is_safe` can always be answered.
    pub fn new(hlt_game: &Game, memory: Memory) -> (r: Simulator)
        requires
            hlt_game.wf(),
            memory@.wf(),
            hlt_game.turn_number < u32::MAX,
        ensures
            r@ == fresh_simulator(*hlt_game, memory@),
            r@.wf(),
            r@.memory == memory@,
    {
        let ghost m0 = memory@;
        let mut memory = memory;
        let first = TurnState::new_current(hlt_game, &memory);
        let mut sim = Simulator {
            memory,
            shipyard: hlt_game.me().shipyard,
            width: hlt_game.game_map.width,
            height: hlt_game.game_map.height,
            future_turns: vec![first],
            current_turn_index: 0,
        };
        proof {
            assert(sim@.turns =~= seq![first@]);
        }
        sim.next();
        proof {
            assert(sim@.turns =~= fresh_simulator(*hlt_game, m0).turns);
        }
        sim
    }

    /// The action has an effect in the next turn: the next turn first learns
    /// the current turn's speculative changes, then takes the action, and the
    /// caller moves on to it.
    pub fn do_and_switch_to_next_turn(&mut self, action: Action)
        requires
            old(self)@.wf(),
            old(self)@.can_advance(action),
        ensures
            final(self)@ == old(self)@.after_advance(action),
            final(self)@.wf(),
            final(self)@.memory == old(self)@.memory,
    {
        let i = self.current_turn_index;
        let ghost turns0 = old(self)@.turns;
        proof {
            assert(turns0[i as int] == old(self).future_turns@[i as int]@);
            assert(turns0[i + 1] == old(self).future_turns@[i + 1]@);
        }
        let overwrites = self.future_turns[i].undoable_layer();
        self.future_turns[i + 1].set_undoable_layer(overwrites);
        self.future_turns[i + 1].did_action(action);
        self.current_turn_index = i + 1;
        let ghost stepped = (TurnView { undoable: turns0[i as int].undoable, ..turns0[i + 1] }).after_action(
            action,
        );
        proof {
            assert(self@.turns =~= turns0.update(i + 1, stepped));
            assert(stepped.grid == turns0[i + 1].grid);
            assert(stepped.base_ships == turns0[i + 1].base_ships);
            assert(stepped.turn_number == turns0[i + 1].turn_number);
            assert(stepped.wf());
            assert(self@.wf_chain());
        }
        self.next();
    }

    /// Clears the changes made by actions since the last `apply`.
    pub fn rollback(&mut self)
        requires
            old(self)@.wf(),
        ensures
            final(self)@ == old(self)@.after_rollback(),
            final(self)@.wf(),
    {
        let n = self.future_turns.len();
        let mut i: usize = 0;
        while i < n
            invariant
                n == self.future_turns@.len(),
                n == old(self).future_turns@.len(),
                i <= n,
                forall|j: int|
                    0 <= j < i ==> (#[trigger] self.future_turns@[j])@ == (TurnView {
                        undoable: DiffView::empty(),
                        ..old(self).future_turns@[j]@
                    }),
                forall|j: int|
                    i <= j < n ==> #[trigger] self.future_turns@[j] == old(self).future_turns@[j],
                self.memory == old(self).memory,
                self.current_turn_index == old(self).current_turn_index,
                self.shipyard == old(self).shipyard,
                self.width == old(self).width,
                self.height == old(self).height,
            decreases n - i,
        {
            self.future_turns[i].rollback();
            i = i + 1;
        }
        self.current_turn_index = 0;
        proof {
            assert(self@.turns =~= old(self)@.after_rollback().turns);
        }
    }

    /// Commits the decided actions, so ships processed later see them and
    /// their effects on the map.
    pub fn apply(&mut self)
        requires
            old(self)@.wf(),
        ensures
            final(self)@ == old(self)@.after_apply(),
            final(self)@.wf(),
    {
        let n = self.future_turns.len();
        proof {
            assert forall|j: int| 0 <= j < n implies (#[trigger] old(self).future_turns@[j])@.wf() by {
                assert(old(self)@.turns[j] == old(self).future_turns@[j]@);
            }
        }
        let mut i: usize = 0;
        while i < n
            invariant
                n == self.future_turns@.len(),
                n == old(self).future_turns@.len(),
                i <= n,
                forall|j: int|
                    0 <= j < i ==> (#[trigger] self.future_turns@[j])@ == (TurnView {
                        applied: old(self).future_turns@[j]@.applied.extend(
                            old(self).future_turns@[j]@.undoable,
                        ),
                        undoable: DiffView::empty(),
                        ..old(self).future_turns@[j]@
                    }),
                forall|j: int|
                    i <= j < n ==> #[trigger] self.future_turns@[j] == old(self).future_turns@[j],
                forall|j: int| 0 <= j < n ==> (#[trigger] old(self).future_turns@[j])@.wf(),
                self.memory == old(self).memory,
                self.current_turn_index == old(self).current_turn_index,
                self.shipyard == old(self).shipyard,
                self.width == old(self).width,
                self.height == old(self).height,
            decreases n - i,
        {
            proof {
                assert(old(self)@.turns[i as int] == old(self).future_turns@[i as int]@);
            }
            self.future_turns[i].apply();
            i = i + 1;
        }
        self.current_turn_index = 0;
        proof {
            assert(self@.turns =~= old(self)@.after_apply().turns);
        }
    }

    /// Records every turn's committed changes in memory, for later planning
    /// in this real turn and in the real turns to come.
    pub fn safe(&mut self)
        requires
            old(self)@.wf(),
        ensures
            final(self)@ == old(self)@.after_save(),
            final(self)@.wf(),
    {
        let n = self.future_turns.len();
        proof {
            assert forall|j: int| 0 <= j < n implies (#[trigger] old(self).future_turns@[j])@.wf() by {
                assert(old(self)@.turns[j] == old(self).future_turns@[j]@);
            }
        }
        let mut i: usize = 0;
        while i < n
            invariant
                n == self.future_turns@.len(),
                n == old(self).future_turns@.len(),
                i <= n,
                self.future_turns == old(self).future_turns,
                forall|j: int| 0 <= j < n ==> (#[trigger] old(self).future_turns@[j])@.wf(),
                self.memory@.wf(),
                self.memory@.paths == old(self).memory@.paths,
                self.memory@.diffs == saved_diffs(
                    old(self).memory@.diffs,
                    old(self)@.turns.take(i as int),
                ),
                self.current_turn_index == old(self).current_turn_index,
                self.shipyard == old(self).shipyard,
                self.width == old(self).width,
                self.height == old(self).height,
            decreases n - i,
        {
            proof {
                assert(old(self)@.turns[i as int] == old(self).future_turns@[i as int]@);
                assert(old(self)@.turns.take(i + 1).drop_last() =~= old(self)@.turns.take(i as int));
            }
            self.future_turns[i].save(&mut self.memory);
            i = i + 1;
        }
        proof {
            assert(old(self)@.turns.take(n as int) =~= old(self)@.turns);
            assert(self@.turns =~= old(self)@.turns);
            assert(self@.memory == old(self)@.after_save().memory);
        }
    }

    /// The memory, to read or record plans in.
    pub fn memory_mut(&mut self) -> (r: &mut Memory)
        ensures
            r@ == old(self)@.memory,
            final(self)@ == (SimView { memory: final(r)@, ..old(self)@ }),
    {
        &mut self.memory
    }

    /// The turn the caller stands at.
    fn current(&self) -> (r: &TurnState)
        requires
            self@.wf(),
        ensures
            r@ == self@.current(),
    {
        &self.future_turns[self.current_turn_index]
    }

    /// Builds the turn after the current one if the chain does not hold it yet.
    fn next(&mut self)
        requires
            old(self)@.wf_chain(),
            old(self)@.index + 1 == old(self)@.turns.len() ==> old(self)@.turns.last().turn_number
                < u32::MAX,
        ensures
            final(self)@ == old(self)@.with_next(),
            final(self)@.wf(),
    {
        if self.current_turn_index + 1 >= self.future_turns.len() {
            let last = self.future_turns.len() - 1;
            let next = TurnState::new_next(&self.future_turns[last], &self.memory);
            self.future_turns.push(next);
            proof {
                assert(self@.turns =~= old(self)@.turns.push(next@));
            }
        }
    }

    pub fn id_to_ship(&self, id: ShipId) -> (r: &Ship)
        requires
            self@.wf(),
            self@.current().ship(id.0) is Some,
        ensures
            *r == self@.current().ship(id.0).unwrap(),
    {
        self.current().ship(id)
    }

    pub fn halite_at(&self, pos: &Position) -> (r: Halite)
        requires
            self@.wf(),
        ensures
            r == self@.current().halite_at(*pos),
    {
        self.current().halite_at(pos)
    }

    /// Where the ship drops its cargo: the shipyard.
    pub fn dropoff_near(&self, _id: ShipId) -> (r: Position)
        ensures
            r == self@.shipyard,
    {
        self.shipyard
    }

    /// Directions that would move the ship closer to the destination.
    pub fn useful_directions(&self, src: &Position, dst: &Position) -> (r: Vec<Direction>)
        requires
            self@.wf(),
        ensures
            r@ == moves_towards(self@.width, self@.height, *src, *dst),
    {
        unsafe_moves(self.width, self.height, src, dst)
    }

    /// Where a step from `p` in direction `d` lands on this game's torus.
    pub fn destination(&self, p: &Position, d: Direction) -> (r: Position)
        requires
            self@.wf(),
        ensures
            r == self@.current().moved_position(*p, d),
    {
        self.current().moved_position(p, d)
    }

    /// Whether no ship will stand, in the next turn, on the cell `dest` denotes.
    pub fn is_safe(&self, dest: Position) -> (r: bool)
        requires
            self@.wf(),
        ensures
            r == !self@.next().occupied(dest),
    {
        proof {
            assert(self@.next() == self.future_turns@[self.current_turn_index + 1]@);
        }
        self.future_turns[self.current_turn_index + 1].ship_at(dest).is_none()
    }
}

/// The state after each action in turn was given to `advance`.
pub open spec fn advance_all(s: SimView, actions: Seq<Action>) -> SimView
    decreases actions.len(),
{
    if actions.len() == 0 {
        s
    } else {
        advance_all(s, actions.drop_last()).after_advance(actions.last())
    }
}

/// A turn without its speculative layer.
pub open spec fn committed_part(t: TurnView) -> TurnView {
    TurnView { undoable: DiffView::empty(), ..t }
}

/// Whether `s` holds the turns of `s0`, up to their speculative layers, and
/// maybe more turns after them, numbered on from the first.
pub open spec fn keeps_committed(s: SimView, s0: SimView) -> bool {
    &&& 0 <= s.index
    &&& s.index + 1 < s.turns.len()
    &&& s.turns[0].turn_number + s.turns.len() <= u32::MAX + 1
    &&& s0.turns.len() <= s.turns.len()
    &&& forall|i: int|
        0 <= i < s0.turns.len() ==> committed_part(#[trigger] s.turns[i]) == committed_part(
            s0.turns[i],
        )
    &&& forall|i: int|
        0 <= i < s.turns.len() ==> (#[trigger] s.turns[i]).turn_number == s.turns[0].turn_number
            + i
    &&& s.memory == s0.memory
    &&& s.shipyard == s0.shipyard
    &&& s.width == s0.width
    &&& s.height == s0.height
}

/// A step changes no committed layer and keeps the chain numbered.
pub proof fn lemma_advance_keeps_committed(s: SimView, s0: SimView, action: Action)
    requires
        keeps_committed(s, s0),
        s.turns[0].turn_number + s.index + 3 <= u32::MAX,
    ensures
        keeps_committed(s.after_advance(action), s0),
        s.after_advance(action).index == s.index + 1,
{
    let i = s.index;
    let stepped = (TurnView { undoable: s.turns[i].undoable, ..s.turns[i + 1] }).after_action(
        action,
    );
    let u = SimView { turns: s.turns.update(i + 1, stepped), index: i + 1, ..s };
    assert(committed_part(stepped) == committed_part(s.turns[i + 1]));
    assert forall|j: int| 0 <= j < u.turns.len() implies committed_part(#[trigger] u.turns[j])
        == committed_part(s.turns[j]) by {
        if j == i + 1 {
        }
    }
    let r = u.with_next();
    assert(r == s.after_advance(action));
    if !(u.index + 1 < u.turns.len()) {
        assert forall|j: int| 0 <= j < u.turns.len() implies committed_part(#[trigger] r.turns[j])
            == committed_part(u.turns[j]) by {
            assert(r.turns[j] == u.turns[j]);
        }
        assert(r.turns[u.turns.len() as int].turn_number == u.turns.last().turn_number + 1);
        assert(r.turns[0] == u.turns[0]);
    }
}

pub proof fn lemma_advance_all_keeps_committed(s0: SimView, actions: Seq<Action>)
    requires
        keeps_committed(s0, s0),
        s0.turns[0].turn_number + s0.index + actions.len() + 2 <= u32::MAX,
    ensures
        keeps_committed(advance_all(s0, actions), s0),
        advance_all(s0, actions).index == s0.index + actions.len(),
    decreases actions.len(),
{
    if actions.len() > 0 {
        lemma_advance_all_keeps_committed(s0, actions.drop_last());
        lemma_advance_keeps_committed(
            advance_all(s0, actions.drop_last()),
            s0,
            actions.last(),
        );
    }
}

/// Rolling back after any number of speculative steps leaves the simulator
/// answering every query as it did right after it was built: the ship and
/// cell lookups at the first turn, and which cells are taken in the turn after.
pub proof fn lemma_rollback_restores(s0: SimView, actions: Seq<Action>)
    requires
        s0.wf(),
        s0.index == 0,
        s0.turns[0].turn_number + actions.len() + 2 <= u32::MAX,
        forall|i: int| 0 <= i < s0.turns.len() ==> (#[trigger] s0.turns[i]).undoable == DiffView::empty(),
    ensures
        ({
            let r = advance_all(s0, actions).after_rollback();
            &&& r.index == 0
            &&& r.current() == s0.current()
            &&& r.next() == s0.next()
            &&& forall|id: usize| #[trigger] r.current().ship(id) == s0.current().ship(id)
            &&& forall|pos: Position| #[trigger] r.current().halite_at(pos) == s0.current().halite_at(pos)
            &&& forall|pos: Position| #[trigger] r.next().occupied(pos) == s0.next().occupied(pos)
        }),
{
    lemma_advance_all_keeps_committed(s0, actions);
    let s = advance_all(s0, actions);
    let r = s.after_rollback();
    assert(r.turns[0] == committed_part(s.turns[0]));
    assert(r.turns[1] == committed_part(s.turns[1]));
    assert(s0.turns[0] == committed_part(s0.turns[0]));
    assert(s0.turns[1] == committed_part(s0.turns[1]));
}

/// Where the turns of the chain are numbered on from `turns[0]`, saving them
/// leaves for each one's number its saved layer with its committed one over it.
proof fn lemma_saved_diffs_at(diffs: Map<u32, DiffView>, turns: Seq<TurnView>, i: int)
    requires
        0 <= i < turns.len(),
        forall|j: int|
            0 <= j < turns.len() ==> (#[trigger] turns[j]).turn_number == turns[0].turn_number + j,
    ensures
        saved_diffs(diffs, turns).contains_key(turns[i].turn_number),
        saved_diffs(diffs, turns)[turns[i].turn_number] == turns[i].saved.extend(turns[i].applied),
    decreases turns.len(),
{
    if i < turns.len() - 1 {
        let shorter = turns.drop_last();
        assert forall|j: int| 0 <= j < shorter.len() implies (#[trigger] shorter[j]).turn_number
            == shorter[0].turn_number + j by {
            assert(shorter[j] == turns[j]);
        }
        lemma_saved_diffs_at(diffs, shorter, i);
        assert(shorter[i] == turns[i]);
        assert(turns.last().turn_number != turns[i].turn_number);
    }
}

/// `j` steps in which no ship acts.
pub open spec fn idle_steps(j: nat) -> Seq<Action> {
    Seq::new(j, |k: int| Action::Nothing)
}

/// Every turn of the chain holds only what memory recorded for its number,
/// and shares the first turn's real game.
pub open spec fn only_recorded(s: SimView) -> bool {
    &&& 0 <= s.index
    &&& s.index + 1 < s.turns.len()
    &&& s.turns[0].turn_number + s.turns.len() <= u32::MAX + 1
    &&& forall|k: int|
        0 <= k < s.turns.len() ==> {
            &&& (#[trigger] s.turns[k]).turn_number == s.turns[0].turn_number + k
            &&& s.turns[k].saved == s.memory.diff_for(s.turns[k].turn_number)
            &&& s.turns[k].applied == DiffView::empty()
            &&& s.turns[k].undoable == DiffView::empty()
            &&& s.turns[k].grid == s.turns[0].grid
            &&& s.turns[k].base_ships == s.turns[0].base_ships
            &&& s.turns[k].base_pos == s.turns[0].base_pos
        }
}

proof fn lemma_idle_steps(s: SimView, j: nat)
    requires
        only_recorded(s),
        s.turns[0].turn_number + s.index + j + 2 <= u32::MAX,
    ensures
        only_recorded(advance_all(s, idle_steps(j))),
        advance_all(s, idle_steps(j)).index == s.index + j,
        advance_all(s, idle_steps(j)).turns[0] == s.turns[0],
        advance_all(s, idle_steps(j)).memory == s.memory,
    decreases j,
{
    if j > 0 {
        assert(idle_steps(j).drop_last() =~= idle_steps((j - 1) as nat));
        lemma_idle_steps(s, (j - 1) as nat);
        let u = advance_all(s, idle_steps((j - 1) as nat));
        let i = u.index;
        let stepped = (TurnView { undoable: u.turns[i].undoable, ..u.turns[i + 1] }).after_action(
            Action::Nothing,
        );
        assert(stepped == u.turns[i + 1]);
        assert(u.turns.update(i + 1, stepped) =~= u.turns);
        let r = u.after_advance(Action::Nothing);
        assert(r == advance_all(s, idle_steps(j)));
        if !(i + 2 < u.turns.len()) {
            assert(r.turns[0] == u.turns[0]);
            assert forall|k: int| 0 <= k < r.turns.len() implies {
                &&& (#[trigger] r.turns[k]).turn_number == r.turns[0].turn_number + k
                &&& r.turns[k].saved == r.memory.diff_for(r.turns[k].turn_number)
                &&& r.turns[k].applied == DiffView::empty()
                &&& r.turns[k].undoable == DiffView::empty()
                &&& r.turns[k].grid == r.turns[0].grid
                &&& r.turns[k].base_ships == r.turns[0].base_ships
                &&& r.turns[k].base_pos == r.turns[0].base_pos
            } by {
                if k < u.turns.len() {
                    assert(r.turns[k] == u.turns[k]);
                }
            }
        }
    }
}

/// Actions committed with `apply` and recorded with `safe` are seen by any
/// simulator built later on the same memory, from any report of the game on
/// a grid of the same size, at the chain position that has the same turn
/// number: each committed ship is there, in the same state and found on its
/// cell, and each committed cell holds the same amount.
pub proof fn lemma_commit_visible(s: SimView, game: Game, j: nat, i: int)
    requires
        s.wf(),
        forall|k: int| 0 <= k < s.turns.len() ==> (#[trigger] s.turns[k]).undoable == DiffView::empty(),
        0 <= i < s.turns.len(),
        game.wf(),
        game.game_map.width == s.turns[0].width(),
        game.game_map.height == s.turns[0].height(),
        game.turn_number + j == s.turns[i].turn_number,
        game.turn_number + j + 2 <= u32::MAX,
    ensures
        ({
            let a = s.turns[i];
            let t = advance_all(fresh_simulator(game, s.after_save().memory), idle_steps(j)).current();
            &&& t.turn_number == a.turn_number
            &&& forall|id: usize|
                #[trigger] a.applied.ships.contains_key(id) ==> t.ship(id) == Some(a.applied.ships[id])
                    && a.ship(id) == t.ship(id)
            &&& forall|p: Position|
                #[trigger] a.applied.halite.contains_key(a.cell(p)) ==> t.halite_at(p)
                    == a.applied.halite[a.cell(p)] && a.halite_at(p) == t.halite_at(p)
            &&& forall|p: Position|
                a.applied.ship_pos.contains_key(a.cell(p)) && a.resolves(
                    a.applied.ship_pos[a.cell(p)],
                    a.cell(p),
                ) ==> #[trigger] t.occupied(p)
        }),
{
    let a = s.turns[i];
    let m = s.after_save().memory;
    let f = fresh_simulator(game, m);
    let g = grid_of(game.game_map);
    assert(g[0].len() == game.game_map.cells@[0]@.len());
    assert(a.width() == s.turns[0].width());
    assert(a.height() == s.turns[0].height());
    assert(only_recorded(f));
    lemma_idle_steps(f, j);
    let t = advance_all(f, idle_steps(j)).current();
    assert(t.turn_number == game.turn_number + j);
    assert(t.grid == g);
    lemma_saved_diffs_at(s.memory.diffs, s.turns, i);
    let r = advance_all(f, idle_steps(j));
    assert(t == r.turns[r.index]);
    assert(t.saved == r.memory.diff_for(t.turn_number));
    assert(r.memory == m);
    assert(m.diffs == saved_diffs(s.memory.diffs, s.turns));
    assert(m.diffs.contains_key(a.turn_number));
    assert(t.saved == a.saved.extend(a.applied));
    assert(t.width() == a.width() && t.height() == a.height());
    assert forall|p: Position|
        a.applied.ship_pos.contains_key(a.cell(p)) && a.resolves(
            a.applied.ship_pos[a.cell(p)],
            a.cell(p),
        ) implies #[trigger] t.occupied(p) by {
        let c = a.cell(p);
        let id = a.applied.ship_pos[c];
        assert(t.cell(p) == c);
        assert(a.applied.ships.contains_key(id));
        assert(t.ship(id) == a.ship(id));
        assert(t.resolves(id, t.cell(p)));
    }
}

/// A ship passing through a cell without staying leaves it as it was: a step
/// that the ship can pay for changes no cell in the turn it leads to, and no
/// other turn of the chain at all.
pub proof fn lemma_passing_leaves_cells(s: SimView, id: usize, d: Direction)
    requires
        s.wf(),
        d != Direction::Still,
        ({
            let t = TurnView { undoable: s.current().undoable, ..s.next() };
            &&& t.ship(id) is Some
            &&& move_cost(t.halite_at(t.ship(id).unwrap().position) as int) <= t.ship(id).unwrap().halite
        }),
    ensures
        ({
            let t = TurnView { undoable: s.current().undoable, ..s.next() };
            let after = s.after_advance(Action::MoveShip(ShipId(id), d));
            &&& forall|q: Position| #[trigger] after.turns[s.index + 1].halite_at(q) == t.halite_at(q)
            &&& forall|k: int|
                0 <= k < s.turns.len() && k != s.index + 1 ==> #[trigger] after.turns[k] == s.turns[k]
        }),
{
    let t = TurnView { undoable: s.current().undoable, ..s.next() };
    assert(t.wf());
    lemma_cardinal_move(t, id, d);
}

} // verus!
