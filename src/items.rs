//! The item spawner: holds the cell of the current coin and moves it to a
//! cell drawn uniformly among those not occupied.
use vstd::prelude::*;
use crate::geometry::contains_index;

verus! {

/// The cells of `[0, n)` that are not in `occupied`, in increasing order.
pub open spec fn free_cells(n: int, occupied: Seq<i32>) -> Seq<i32>
    decreases n,
{
    if n <= 0 {
        Seq::empty()
    } else {
        let rest = free_cells(n - 1, occupied);
        if occupied.contains((n - 1) as i32) {
            rest
        } else {
            rest.push((n - 1) as i32)
        }
    }
}

/// A cell is free exactly when it lies in `[0, n)` and is not occupied.
pub proof fn lemma_free_cells(n: int, occupied: Seq<i32>)
    requires
        n <= i32::MAX,
    ensures
        forall|x: i32| #[trigger] free_cells(n, occupied).contains(x) <==> (0 <= x < n && !occupied.contains(x)),
        free_cells(n, occupied).len() <= if n < 0 { 0 } else { n },
    decreases n,
{
    if n > 0 {
        lemma_free_cells(n - 1, occupied);
        let rest = free_cells(n - 1, occupied);
        assert forall|x: i32| #[trigger] free_cells(n, occupied).contains(x) <==> (0 <= x < n && !occupied.contains(x)) by {
            if !occupied.contains((n - 1) as i32) {
                let f = rest.push((n - 1) as i32);
                if f.contains(x) {
                    let j = choose|j: int| 0 <= j < f.len() && f[j] == x;
                    if j < rest.len() {
                        assert(rest[j] == x);
                    }
                }
                if x == n - 1 {
                    assert(f[rest.len() as int] == x);
                } else if rest.contains(x) {
                    let j = choose|j: int| 0 <= j < rest.len() && rest[j] == x;
                    assert(f[j] == x);
                }
            }
        }
    }
}

/// The coin and the number of cells it can stand on.
pub struct Items {
    pub coin_position: i32,
    pub number_of_squares: i32,
}

impl Items {
    /// The coin stands on a cell of the grid.
    pub open spec fn wf(&self) -> bool {
        0 <= self.coin_position < self.number_of_squares
    }

    /// A coin on a cell drawn uniformly from `[0, number_of_squares)`.
    pub fn init(number_of_squares: i32) -> (r: Self)
        requires
            number_of_squares > 0,
        ensures
            r.number_of_squares == number_of_squares,
            r.wf(),
    {
        Self { number_of_squares, coin_position: Items::random(number_of_squares) }
    }

    /// Relies on rand::random_range: a value drawn uniformly from `0..range`,
    /// which panics when the range is empty.
    #[verifier::external_body]
    fn random(range: i32) -> (r: i32)
        requires
            range > 0,
        ensures
            0 <= r < range,
    {
        rand::random_range(0..range)
    }

    /// The cells of `[0, number_of_squares)` that are not in
    /// `occupied_positions`, in increasing order.
    pub fn free_positions(number_of_squares: i32, occupied_positions: &Vec<i32>) -> (r: Vec<i32>)
        ensures
            r@ == free_cells(number_of_squares as int, occupied_positions@),
    {
        let mut r: Vec<i32> = Vec::new();
        let mut i: i32 = 0;
        if number_of_squares <= 0 {
            return r;
        }
        while i < number_of_squares
            invariant
                0 <= i <= number_of_squares,
                r@ == free_cells(i as int, occupied_positions@),
            decreases number_of_squares - i,
        {
            if !contains_index(occupied_positions, i) {
                r.push(i);
            }
            i += 1;
        }
        r
    }

    /// Puts the coin on `free[random_index]`, or on cell 0 when `free` is
    /// empty.
    pub fn place_coin(&mut self, free: &Vec<i32>, random_index: usize)
        requires
            free@.len() > 0 ==> random_index < free@.len(),
        ensures
            final(self).number_of_squares == old(self).number_of_squares,
            final(self).coin_position == (if free@.len() == 0 {
                0
            } else {
                free@[random_index as int]
            }),
    {
        if free.is_empty() {
            self.coin_position = 0;
        } else {
            self.coin_position = free[random_index];
        }
    }

    /// Moves the coin to a cell drawn uniformly among the cells of the grid
    /// that are not in `occupied_positions`; to cell 0 when every cell is
    /// occupied.
    pub fn spawn_coin(&mut self, occupied_positions: &Vec<i32>)
        requires
            old(self).wf(),
        ensures
            final(self).wf(),
            final(self).number_of_squares == old(self).number_of_squares,
            free_cells(old(self).number_of_squares as int, occupied_positions@).contains(
                final(self).coin_position,
            ) || (free_cells(old(self).number_of_squares as int, occupied_positions@).len() == 0
                && final(self).coin_position == 0),
            (exists|x: i32| 0 <= x < old(self).number_of_squares && !occupied_positions@.contains(x))
                ==> !occupied_positions@.contains(final(self).coin_position),
            (forall|x: i32| 0 <= x < old(self).number_of_squares ==> occupied_positions@.contains(x))
                ==> final(self).coin_position == 0,
    {
        let free = Items::free_positions(self.number_of_squares, occupied_positions);
        proof {
            lemma_free_cells(self.number_of_squares as int, occupied_positions@);
        }
        if free.is_empty() {
            self.place_coin(&free, 0);
        } else {
            let random_index = Items::random(free.len() as i32);
            self.place_coin(&free, random_index as usize);
            assert(free@.contains(self.coin_position)) by {
                assert(free@[random_index as int] == self.coin_position);
            }
        }
        proof {
            let n = old(self).number_of_squares as int;
            if exists|x: i32| 0 <= x < n && !occupied_positions@.contains(x) {
                let x = choose|x: i32| 0 <= x < n && !occupied_positions@.contains(x);
                assert(free@.contains(x));
            }
        }
    }
}

} // verus!
