//! The actor: a head that advances one cell per tick in the direction it
//! faces, leaves a trail of the cells it occupied (most recent first) bounded
//! by its growth target, and starts over when it steps onto its own trail.
use vstd::prelude::*;
use crate::geometry::{Direction, valid_side, reach_bound, step, next_index, contains_index, lemma_step_in_reach};

verus! {

/// Time between two advancement ticks, in microseconds.
pub const DEFAULT_TICK_MICROS: u32 = 500_000;

/// The mathematical state of an actor.
pub struct ActorState {
    /// Cells per row and per column.
    pub side: int,
    /// The cell of the head.
    pub current: int,
    /// The cell computed for the head by the last step.
    pub pending: int,
    /// The direction of the next step.
    pub facing: Direction,
    /// Microseconds elapsed since the last tick.
    pub timer: int,
    /// A tick happens once `timer` exceeds this many microseconds.
    pub threshold: int,
    /// Cells previously occupied by the head, most recent first.
    pub trail: Seq<int>,
    /// The length the trail is allowed to reach.
    pub growth: int,
}

/// The state an actor starts in, and returns to after a collision.
pub open spec fn initial_state(side: int, threshold: int) -> ActorState {
    ActorState {
        side,
        current: 0,
        pending: 1,
        facing: Direction::Left,
        timer: 0,
        threshold,
        trail: Seq::empty(),
        growth: 0,
    }
}

/// The states the executable actor keeps: indices reachable by stepping, a
/// trail no longer than the growth target, a timer not beyond its threshold.
pub open spec fn actor_wf(s: ActorState) -> bool {
    &&& valid_side(s.side)
    &&& 0 <= s.current < reach_bound(s.side)
    &&& 0 <= s.pending < reach_bound(s.side)
    &&& 0 <= s.growth <= i32::MAX
    &&& s.trail.len() <= s.growth
    &&& forall|i: int| 0 <= i < s.trail.len() ==> 0 <= #[trigger] s.trail[i] < reach_bound(s.side)
    &&& 0 <= s.timer <= s.threshold <= u32::MAX
}

/// The trail after the head's cell is pushed on its front and the result is
/// cut to the growth target, keeping the most recent cells.
pub open spec fn pushed_trail(s: ActorState) -> Seq<int> {
    let t = seq![s.current].add(s.trail);
    if s.growth < t.len() {
        t.take(s.growth)
    } else {
        t
    }
}

/// Whether the next tick steps onto the trail.
pub open spec fn collides(s: ActorState) -> bool {
    pushed_trail(s).contains(step(s.side, s.current, s.facing))
}

/// One advancement tick: the timer restarts, the trail takes the head's
/// cell, the next cell is computed, and the head moves there unless that
/// cell is on the trail, in which case the actor starts over.
pub open spec fn tick(s: ActorState) -> ActorState {
    if collides(s) {
        initial_state(s.side, s.threshold)
    } else {
        let next = step(s.side, s.current, s.facing);
        ActorState { current: next, pending: next, timer: 0, trail: pushed_trail(s), ..s }
    }
}

/// Lets `delta` microseconds pass: a tick when the timer then exceeds its
/// threshold, otherwise only the timer moves.
pub open spec fn advance(s: ActorState, delta: int) -> ActorState {
    if s.timer + delta > s.threshold {
        tick(s)
    } else {
        ActorState { timer: s.timer + delta, ..s }
    }
}

/// Raises the growth target by one.
pub open spec fn grow(s: ActorState) -> ActorState {
    ActorState { growth: s.growth + 1, ..s }
}

/// Faces `d` from the next tick on.
pub open spec fn turn(s: ActorState, d: Direction) -> ActorState {
    ActorState { facing: d, ..s }
}

/// Faces `d` and ticks at once, unless `d` is already faced.
pub open spec fn turn_now(s: ActorState, d: Direction) -> ActorState {
    if d == s.facing {
        s
    } else {
        tick(turn(s, d))
    }
}

/// `m` ticks in a row.
pub open spec fn ticks(s: ActorState, m: nat) -> ActorState
    decreases m,
{
    if m == 0 {
        s
    } else {
        tick(ticks(s, (m - 1) as nat))
    }
}

/// `k` raises of the growth target in a row.
pub open spec fn grown(s: ActorState, k: nat) -> ActorState
    decreases k,
{
    if k == 0 {
        s
    } else {
        grow(grown(s, (k - 1) as nat))
    }
}

/// None of the first `m` ticks from `s` steps onto the trail.
pub open spec fn ticks_without_collision(s: ActorState, m: nat) -> bool {
    forall|j: nat| j < m ==> !collides(#[trigger] ticks(s, j))
}

proof fn lemma_grown(s: ActorState, k: nat)
    ensures
        grown(s, k) == (ActorState { growth: s.growth + k, ..s }),
    decreases k,
{
    if k > 0 {
        lemma_grown(s, (k - 1) as nat);
    }
}

proof fn lemma_ticks_trail_len(s: ActorState, m: nat)
    requires
        0 <= s.trail.len() <= s.growth,
        ticks_without_collision(s, m),
    ensures
        ticks(s, m).growth == s.growth,
        ticks(s, m).trail.len() == (if s.trail.len() + m < s.growth {
            s.trail.len() + m as int
        } else {
            s.growth
        }),
    decreases m,
{
    if m > 0 {
        let p = ticks(s, (m - 1) as nat);
        assert(ticks_without_collision(s, (m - 1) as nat)) by {
            assert forall|j: nat| j < (m - 1) as nat implies !collides(#[trigger] ticks(s, j)) by {
                assert(j < m);
            }
        }
        lemma_ticks_trail_len(s, (m - 1) as nat);
        assert(!collides(p)) by {
            assert(((m - 1) as nat) < m);
        }
    }
}

/// After the growth target is raised `k` times, `m` ticks without a
/// collision leave a trail of `min(growth + k, trail length + m)` cells. So
/// when the trail had caught up with its target (a fresh actor has neither),
/// at least `k` such ticks leave exactly `k` more cells on the trail.
pub proof fn lemma_trail_follows_growth(s: ActorState, k: nat, m: nat)
    requires
        actor_wf(s),
        ticks_without_collision(grown(s, k), m),
    ensures
        ticks(grown(s, k), m).trail.len() == (if s.trail.len() + m < s.growth + k {
            s.trail.len() + m as int
        } else {
            s.growth + k
        }),
        s.trail.len() == s.growth && m >= k ==> ticks(grown(s, k), m).trail.len() == s.growth + k,
{
    lemma_grown(s, k);
    lemma_ticks_trail_len(grown(s, k), m);
}

/// The snake-style actor.
pub struct Character {
    /// The cell of the head.
    pub current_index: i32,
    /// The cell computed for the head by the last step.
    pub future_index: i32,
    /// Cells per row and per column.
    pub number_of_squares_per_row: i32,
    /// The direction of the next step.
    pub last_position_direction: Direction,
    /// Microseconds elapsed since the last tick.
    pub timer: u64,
    /// A tick happens once `timer` exceeds this many microseconds.
    pub tick_threshold: u32,
    /// Cells previously occupied by the head, most recent first.
    pub tail_positions: Vec<i32>,
    /// The length `tail_positions` is allowed to reach.
    pub tail_length: i32,
}

impl View for Character {
    type V = ActorState;

    open spec fn view(&self) -> ActorState {
        ActorState {
            side: self.number_of_squares_per_row as int,
            current: self.current_index as int,
            pending: self.future_index as int,
            facing: self.last_position_direction,
            timer: self.timer as int,
            threshold: self.tick_threshold as int,
            trail: self.tail_positions@.map_values(|v: i32| v as int),
            growth: self.tail_length as int,
        }
    }
}

proof fn lemma_contains_as_int(v: Seq<i32>, x: i32)
    ensures
        v.contains(x) == v.map_values(|a: i32| a as int).contains(x as int),
{
    let w = v.map_values(|a: i32| a as int);
    if w.contains(x as int) {
        let j = choose|j: int| 0 <= j < w.len() && w[j] == x as int;
        assert(v[j] == x);
    }
    if v.contains(x) {
        let j = choose|j: int| 0 <= j < v.len() && v[j] == x;
        assert(w[j] == x as int);
    }
}

proof fn lemma_initial_wf(side: int, threshold: int)
    requires
        valid_side(side),
        0 <= threshold <= u32::MAX,
    ensures
        actor_wf(initial_state(side, threshold)),
{
    assert(side * side >= 1) by (nonlinear_arith)
        requires side >= 1;
}

proof fn lemma_tick_wf(s: ActorState)
    requires
        actor_wf(s),
    ensures
        actor_wf(tick(s)),
{
    if collides(s) {
        lemma_initial_wf(s.side, s.threshold);
    } else {
        lemma_step_in_reach(s.side, s.current, s.facing);
        let t = seq![s.current].add(s.trail);
        assert forall|i: int| 0 <= i < t.len() implies 0 <= #[trigger] t[i] < reach_bound(s.side) by {
            if i > 0 {
                assert(t[i] == s.trail[i - 1]);
            }
        }
    }
}

impl Character {
    /// The actor's state is one that [`actor_wf`] admits.
    pub open spec fn wf(&self) -> bool {
        actor_wf(self@)
    }

    /// A fresh actor on a grid with `number_of_squares_per_row` cells per
    /// row, ticking every half second.
    pub fn init(number_of_squares_per_row: i32) -> (r: Self)
        requires
            valid_side(number_of_squares_per_row as int),
        ensures
            r@ == initial_state(number_of_squares_per_row as int, DEFAULT_TICK_MICROS as int),
            r.wf(),
    {
        Self::with_tick_threshold(number_of_squares_per_row, DEFAULT_TICK_MICROS)
    }

    /// A fresh actor that ticks once more than `tick_micros` microseconds
    /// have passed.
    pub fn with_tick_threshold(number_of_squares_per_row: i32, tick_micros: u32) -> (r: Self)
        requires
            valid_side(number_of_squares_per_row as int),
        ensures
            r@ == initial_state(number_of_squares_per_row as int, tick_micros as int),
            r.wf(),
    {
        let r = Self {
            current_index: 0,
            future_index: 1,
            last_position_direction: Direction::Left,
            timer: 0,
            tick_threshold: tick_micros,
            number_of_squares_per_row,
            tail_positions: Vec::new(),
            tail_length: 0,
        };
        assert(r@.trail =~= Seq::empty());
        proof {
            lemma_initial_wf(number_of_squares_per_row as int, tick_micros as int);
        }
        r
    }

    /// Returns to the initial state, keeping the grid and the tick threshold.
    fn reset(&mut self)
        ensures
            final(self)@ == initial_state(old(self)@.side, old(self)@.threshold),
    {
        self.tail_positions.clear();
        self.current_index = 0;
        self.future_index = 1;
        self.tail_length = 0;
        self.last_position_direction = Direction::Left;
        self.timer = 0;
        assert(self@.trail =~= Seq::empty());
    }

    /// Moves the head to the pending cell, or starts over if that cell is on
    /// the trail.
    fn set_current_index(&mut self)
        ensures
            final(self)@ == (if old(self)@.trail.contains(old(self)@.pending) {
                initial_state(old(self)@.side, old(self)@.threshold)
            } else {
                ActorState { current: old(self)@.pending, ..old(self)@ }
            }),
    {
        let hit = contains_index(&self.tail_positions, self.future_index);
        proof {
            lemma_contains_as_int(self.tail_positions@, self.future_index);
        }
        if hit {
            self.reset();
        } else {
            self.current_index = self.future_index;
        }
    }

    /// Pushes the head's cell on the front of the trail and cuts the trail
    /// to the growth target.
    fn update_tail_positions(&mut self)
        requires
            old(self).wf(),
        ensures
            final(self)@ == (ActorState { trail: pushed_trail(old(self)@), ..old(self)@ }),
    {
        let ghost before = self.tail_positions@;
        self.tail_positions.insert(0, self.current_index);
        let end = self.tail_length as usize;
        let end = if end < self.tail_positions.len() {
            end
        } else {
            self.tail_positions.len()
        };
        self.tail_positions.truncate(end);
        proof {
            let t = seq![old(self)@.current].add(old(self)@.trail);
            assert(self@.trail =~= pushed_trail(old(self)@)) by {
                assert(before.insert(0, old(self).current_index).map_values(|v: i32| v as int) =~= t);
            }
        }
    }

    /// Computes the pending cell from the head's cell and the facing.
    fn set_future_index(&mut self)
        requires
            old(self).wf(),
        ensures
            final(self)@ == (ActorState {
                pending: step(old(self)@.side, old(self)@.current, old(self)@.facing),
                ..old(self)@
            }),
    {
        self.future_index = next_index(
            self.number_of_squares_per_row,
            self.current_index,
            self.last_position_direction,
        );
    }

    /// Faces `new_dir`; the actor steps that way from the next tick on.
    pub fn set_direction(&mut self, new_dir: Direction)
        requires
            old(self).wf(),
        ensures
            final(self).wf(),
            final(self)@ == turn(old(self)@, new_dir),
            final(self).tail_positions@ == old(self).tail_positions@,
            new_dir == old(self)@.facing ==> final(self)@ == old(self)@,
    {
        self.last_position_direction = new_dir;
    }

    /// Raises the growth target by one; the trail catches up over the
    /// following ticks.
    pub fn add_tail_length(&mut self)
        requires
            old(self).wf(),
            old(self).tail_length < i32::MAX,
        ensures
            final(self).wf(),
            final(self)@ == grow(old(self)@),
            final(self).tail_positions@ == old(self).tail_positions@,
    {
        self.tail_length += 1;
    }

    /// Lets `delta_micros` microseconds pass, and ticks once if the timer
    /// then exceeds the threshold.
    pub fn update(&mut self, delta_micros: u32)
        requires
            old(self).wf(),
        ensures
            final(self).wf(),
            final(self)@ == advance(old(self)@, delta_micros as int),
            old(self)@.timer + delta_micros > old(self)@.threshold && collides(old(self)@) ==> {
                &&& final(self).current_index == 0
                &&& final(self).tail_positions@.len() == 0
                &&& final(self).tail_length == 0
            },
    {
        proof {
            lemma_tick_wf(self@);
        }
        self.timer = self.timer + delta_micros as u64;
        if self.timer > self.tick_threshold as u64 {
            self.timer = 0;
            self.update_tail_positions();
            self.set_future_index();
            self.set_current_index();
        }
    }

    /// Faces `direction` and ticks at once; does nothing when `direction`
    /// is already faced.
    pub fn move_to(&mut self, direction: Direction)
        requires
            old(self).wf(),
        ensures
            final(self).wf(),
            final(self)@ == turn_now(old(self)@, direction),
            direction == old(self)@.facing ==> final(self)@ == old(self)@,
    {
        if direction == self.last_position_direction {
            return;
        }
        proof {
            lemma_tick_wf(turn(self@, direction));
        }
        self.last_position_direction = direction;
        self.update_tail_positions();
        self.set_future_index();
        self.set_current_index();
        self.timer = 0;
    }

    /// The cells the actor covers: its head, then its trail.
    pub fn occupied_positions(&self) -> (r: Vec<i32>)
        ensures
            r@ == seq![self.current_index].add(self.tail_positions@),
    {
        let mut r: Vec<i32> = Vec::new();
        r.push(self.current_index);
        let mut i: usize = 0;
        while i < self.tail_positions.len()
            invariant
                i <= self.tail_positions@.len(),
                r@ == seq![self.current_index].add(self.tail_positions@.take(i as int)),
            decreases self.tail_positions@.len() - i,
        {
            r.push(self.tail_positions[i]);
            i += 1;
            assert(r@ =~= seq![self.current_index].add(self.tail_positions@.take(i as int)));
        }
        assert(self.tail_positions@.take(i as int) =~= self.tail_positions@);
        r
    }
}

} // verus!
