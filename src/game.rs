//! One frame of play: the actor and the coin, and the order in which a
//! frame applies input, coin pickup and the passing of time.
use vstd::prelude::*;
use crate::geometry::{Direction, valid_side};
use crate::character::{Character, ActorState, DEFAULT_TICK_MICROS, initial_state, turn, grow, advance};
use crate::items::Items;

verus! {

/// The actor's state once a frame has applied its input, if any.
pub open spec fn after_input(s: ActorState, input: Option<Direction>) -> ActorState {
    match input {
        Some(d) => turn(s, d),
        None => s,
    }
}

/// Whether the head stands on the coin.
pub open spec fn reaches_coin(g: Game) -> bool {
    g.character.current_index == g.items.coin_position
}

/// The cells that the head and the trail cover.
pub open spec fn covered(g: Game) -> Seq<i32> {
    seq![g.character.current_index].add(g.character.tail_positions@)
}

/// An actor and a coin on the same grid.
pub struct Game {
    pub character: Character,
    pub items: Items,
}

impl Game {
    /// Both parts are well formed and the coin's grid is the actor's grid.
    pub open spec fn wf(&self) -> bool {
        &&& self.character.wf()
        &&& self.items.wf()
        &&& self.items.number_of_squares == self.character.number_of_squares_per_row
            * self.character.number_of_squares_per_row
    }

    /// A fresh actor and a coin on a random cell of a grid with
    /// `squares_per_row` cells per row.
    pub fn init(squares_per_row: i32) -> (r: Self)
        requires
            valid_side(squares_per_row as int),
        ensures
            r.wf(),
            r.character@ == initial_state(squares_per_row as int, DEFAULT_TICK_MICROS as int),
    {
        let character = Character::init(squares_per_row);
        proof {
            let n = squares_per_row as int;
            assert(1 <= n * n <= n * n + 2 * n) by (nonlinear_arith)
                requires n >= 1;
        }
        let items = Items::init(squares_per_row * squares_per_row);
        Game { character, items }
    }

    /// Plays one frame: faces `input` if there is one; if the head is on
    /// the coin, raises the growth target and moves the coin to a cell
    /// that neither the head nor the trail covers; then lets
    /// `delta_micros` microseconds pass.
    pub fn step_frame(&mut self, input: Option<Direction>, delta_micros: u32)
        requires
            old(self).wf(),
            old(self).character.tail_length < i32::MAX,
        ensures
            final(self).wf(),
            final(self).character@ == advance(
                if reaches_coin(*old(self)) {
                    grow(after_input(old(self).character@, input))
                } else {
                    after_input(old(self).character@, input)
                },
                delta_micros as int,
            ),
            !reaches_coin(*old(self)) ==> final(self).items == old(self).items,
            reaches_coin(*old(self)) && (exists|x: i32|
                0 <= x < old(self).items.number_of_squares && !covered(*old(self)).contains(x))
                ==> !covered(*old(self)).contains(final(self).items.coin_position),
            reaches_coin(*old(self)) && (forall|x: i32|
                0 <= x < old(self).items.number_of_squares ==> covered(*old(self)).contains(x))
                ==> final(self).items.coin_position == 0,
    {
        match input {
            Some(d) => self.character.set_direction(d),
            None => {},
        }
        if self.character.current_index == self.items.coin_position {
            self.character.add_tail_length();
            let cells = self.character.occupied_positions();
            assert(cells@ == covered(*old(self)));
            self.items.spawn_coin(&cells);
        }
        self.character.update(delta_micros);
    }
}

} // verus!
