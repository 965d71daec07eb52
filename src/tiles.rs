//! The arrangement of the puzzle's tiles, the legal slides and win detection.
use tinyrand::RandRange;
use tinyrand::Xorshift;
use vstd::prelude::*;

verus! {

#[verifier::external_type_specification]
#[verifier::external_body]
pub struct ExXorshift(Xorshift);

/// Relies on tinyrand's `RandRange::<u16>::next_range`: a draw that lies in
/// `start..end` (it asserts that the range is not empty).
#[verifier::external_body]
fn draw_in_range(rng: &mut Xorshift, start: u16, end: u16) -> (r: u16)
    requires
        start < end,
    ensures
        start <= r < end,
{
    rng.next_range(start..end)
}

/// A player movement of a tile towards the empty slot.
#[derive(Debug, Clone, Copy, PartialEq, Eq, Hash, Structural)]
pub enum Move {
    /// move the lower tile upwards
    Up,
    /// move the upper tile downwards
    Down,
    /// move the right tile to the left
    Left,
    /// move the left tile to the right
    Right,
}

impl Move {
    /// The move that undoes this one.
    pub open spec fn inverse(self) -> Move {
        match self {
            Move::Up => Move::Down,
            Move::Down => Move::Up,
            Move::Left => Move::Right,
            Move::Right => Move::Left,
        }
    }
}

/// The mathematical picture of a grid: its cells in row-major order,
/// its dimensions and the cached coordinate of the empty slot.
pub struct Board {
    pub cells: Seq<u8>,
    pub cols: nat,
    pub rows: nat,
    pub empty_x: nat,
    pub empty_y: nat,
}

/// Every identifier below the length appears exactly once.
pub open spec fn is_arrangement(s: Seq<u8>) -> bool {
    &&& forall|i: int| 0 <= i < s.len() ==> (#[trigger] s[i] as int) < s.len()
    &&& forall|i: int, j: int| 0 <= i < s.len() && 0 <= j < s.len() && i != j ==> s[i] != s[j]
    &&& forall|id: int| 0 <= id < s.len() ==> #[trigger] appears(s, id)
}

/// Some cell of `s` holds `id`.
pub open spec fn appears(s: Seq<u8>, id: int) -> bool {
    exists|k: int| 0 <= k < s.len() && s[k] as int == id
}

/// The solved board of the given dimensions, with the empty slot at the
/// top-left corner.
pub open spec fn solved_board(cols: nat, rows: nat) -> Board {
    Board {
        cells: Seq::new(cols * rows, |i: int| i as u8),
        cols,
        rows,
        empty_x: 0,
        empty_y: 0,
    }
}

/// The move that a draw in `0..4` stands for.
pub open spec fn move_of_draw(d: u16) -> Move {
    if d == 0 {
        Move::Up
    } else if d == 1 {
        Move::Down
    } else if d == 2 {
        Move::Left
    } else {
        Move::Right
    }
}

pub open spec fn moves_of_draws(draws: Seq<u16>) -> Seq<Move> {
    draws.map_values(|d: u16| move_of_draw(d))
}

impl Board {
    pub open spec fn len(self) -> nat {
        self.cols * self.rows
    }

    /// Row-major index of the cell at column `x`, row `y`.
    pub open spec fn index(self, x: int, y: int) -> int {
        y * self.cols + x
    }

    pub open spec fn empty_index(self) -> int {
        self.index(self.empty_x as int, self.empty_y as int)
    }

    pub open spec fn wf(self) -> bool {
        &&& 1 <= self.cols <= 16
        &&& 1 <= self.rows <= 16
        &&& self.cells.len() == self.len()
        &&& self.empty_x < self.cols
        &&& self.empty_y < self.rows
        &&& self.cells[self.empty_index()] == 0
        &&& is_arrangement(self.cells)
    }

    /// Whether the empty slot has a neighbour on the side that `m` slides from.
    pub open spec fn allows(self, m: Move) -> bool {
        match m {
            Move::Up => self.empty_y + 1 < self.rows,
            Move::Down => self.empty_y > 0,
            Move::Left => self.empty_x + 1 < self.cols,
            Move::Right => self.empty_x > 0,
        }
    }

    /// Where the empty slot is after `m`, when `m` is allowed: on the cell of
    /// the tile that slides into it.
    pub open spec fn target(self, m: Move) -> (int, int) {
        let x = self.empty_x as int;
        let y = self.empty_y as int;
        match m {
            Move::Up => (x, y + 1),
            Move::Down => (x, y - 1),
            Move::Left => (x + 1, y),
            Move::Right => (x - 1, y),
        }
    }

    /// The board after `m`: the empty slot and its neighbour trade places
    /// when `m` is allowed; otherwise nothing changes.
    pub open spec fn after(self, m: Move) -> Board {
        if self.allows(m) {
            let (nx, ny) = self.target(m);
            let i = self.empty_index();
            let j = self.index(nx, ny);
            Board {
                cells: self.cells.update(i, self.cells[j]).update(j, self.cells[i]),
                cols: self.cols,
                rows: self.rows,
                empty_x: nx as nat,
                empty_y: ny as nat,
            }
        } else {
            self
        }
    }

    /// The board after each move of `ms` in turn.
    pub open spec fn run(self, ms: Seq<Move>) -> Board
        decreases ms.len(),
    {
        if ms.len() == 0 {
            self
        } else {
            self.after(ms[0]).run(ms.drop_first())
        }
    }

    /// The moves that take `self.run(ms)` back to `self`: the inverses of the
    /// moves of `ms` that took effect, last one first.
    pub open spec fn undo(self, ms: Seq<Move>) -> Seq<Move>
        decreases ms.len(),
    {
        if ms.len() == 0 {
            Seq::empty()
        } else {
            let rest = self.after(ms[0]).undo(ms.drop_first());
            if self.allows(ms[0]) {
                rest.push(ms[0].inverse())
            } else {
                rest
            }
        }
    }

    /// The goal coordinate of the tile that stands at column `x`, row `y`.
    pub open spec fn goal_of(self, x: int, y: int) -> (int, int) {
        let id = self.cells[self.index(x, y)] as int;
        (id % self.cols as int, id / self.cols as int)
    }

    /// The row-major index of the cell that holds tile `id`.
    pub open spec fn cell_of(self, id: int) -> int {
        choose|k: int| 0 <= k < self.cells.len() && self.cells[k] as int == id
    }

    /// The current coordinate of tile `id`.
    pub open spec fn location(self, id: int) -> (int, int) {
        let k = self.cell_of(id);
        (k % self.cols as int, k / self.cols as int)
    }

    /// The puzzle is solved when every cell holds its own index.
    pub open spec fn is_solved(self) -> bool {
        forall|i: int| 0 <= i < self.cells.len() ==> #[trigger] self.cells[i] as int == i
    }
}

/// The full state of the tiles, including dimensions and how the tiles are
/// arranged in them. Tile 0 is the empty slot; its coordinate is kept
/// separately in `empty_x` and `empty_y`.
#[derive(Debug, PartialEq, Eq)]
pub struct Tiles {
    /// the identifiers of the individual tiles, in row-major order
    pub tiles: Vec<u8>,
    pub rows: u8,
    pub cols: u8,
    /// the x coordinate of the empty tile
    pub empty_x: u8,
    /// the y coordinate of the empty tile
    pub empty_y: u8,
}

impl View for Tiles {
    type V = Board;

    open spec fn view(&self) -> Board {
        Board {
            cells: self.tiles@,
            cols: self.cols as nat,
            rows: self.rows as nat,
            empty_x: self.empty_x as nat,
            empty_y: self.empty_y as nat,
        }
    }
}

impl Tiles {
    /// The tiles form a grid of at most 16 by 16 cells that holds every
    /// identifier once, with the empty slot where its coordinate says.
    pub open spec fn wf(&self) -> bool {
        self@.wf()
    }

    /// Create a new tile state with the given dimensions, in a winning
    /// condition. Remember to shuffle afterwards.
    pub fn new(cols: u8, rows: u8) -> (r: Tiles)
        requires
            1 <= cols <= 16,
            1 <= rows <= 16,
        ensures
            r.wf(),
            r.cols == cols,
            r.rows == rows,
            r.empty_x == 0,
            r.empty_y == 0,
            r@ == solved_board(cols as nat, rows as nat),
            r@.is_solved(),
    {
        proof {
            lemma_grid_size(cols as int, rows as int);
        }
        let n: usize = cols as usize * rows as usize;
        let mut tiles: Vec<u8> = Vec::new();
        let mut k: usize = 0;
        while k < n
            invariant
                n == cols * rows,
                n <= 256,
                k <= n,
                tiles@.len() == k,
                forall|i: int| 0 <= i < k ==> #[trigger] tiles@[i] as int == i,
            decreases n - k,
        {
            tiles.push(k as u8);
            k += 1;
        }
        let r = Tiles { tiles, rows, cols, empty_x: 0, empty_y: 0 };
        assert(r@.empty_index() == 0);
        assert(r@.len() == n);
        assert(r.tiles@[0] == 0);
        assert(r.tiles@ =~= solved_board(cols as nat, rows as nat).cells);
        assert forall|id: int| 0 <= id < r.tiles@.len() implies #[trigger] appears(r.tiles@, id) by {
            assert(r.tiles@[id] as int == id);
        }
        r
    }

    /// Create a new tile state with the given dimensions and shuffle it with
    /// `iterations` random moves. More iterations means more randomness.
    pub fn new_shuffled(cols: u8, rows: u8, rng: &mut Xorshift, iterations: u32) -> (r: Tiles)
        requires
            1 <= cols <= 16,
            1 <= rows <= 16,
        ensures
            r.wf(),
            r.cols == cols,
            r.rows == rows,
            exists|ms: Seq<Move>|
                ms.len() == iterations && r@ == #[trigger] solved_board(cols as nat, rows as nat).run(ms),
    {
        let mut tiles = Tiles::new(cols, rows);
        tiles.shuffle(rng, iterations);
        tiles
    }

    /// Get the x,y coordinates that the tile currently at the given
    /// coordinates is supposed to be at when the puzzle is solved.
    pub fn position_of(&self, current_x: u8, current_y: u8) -> (r: (u8, u8))
        requires
            self.wf(),
            current_x < self.cols,
            current_y < self.rows,
        ensures
            (r.0 as int, r.1 as int) == self@.goal_of(current_x as int, current_y as int),
    {
        proof {
            lemma_index_in_grid(self.cols as int, self.rows as int, current_x as int, current_y as int);
            lemma_grid_size(self.cols as int, self.rows as int);
        }
        let index = current_y as usize * self.cols as usize + current_x as usize;
        let tile_num = self.tiles[index];
        (tile_num % self.cols, tile_num / self.cols)
    }

    /// Get the x,y coordinates of the tile with the given identifier, by a
    /// linear search over the tiles.
    pub fn where_is(&self, tile_num: u16) -> (r: (u8, u8))
        requires
            self.wf(),
            tile_num < self@.len(),
        ensures
            (r.0 as int, r.1 as int) == self@.location(tile_num as int),
            r.0 < self.cols,
            r.1 < self.rows,
    {
        proof {
            lemma_grid_size(self.cols as int, self.rows as int);
            assert(appears(self.tiles@, tile_num as int));
        }
        let n = self.tiles.len();
        let mut k: usize = 0;
        while k < n
            invariant
                self.wf(),
                n == self.tiles@.len(),
                n <= 256,
                tile_num < n,
                k <= n,
                forall|j: int| 0 <= j < k ==> self.tiles@[j] as int != tile_num as int,
            decreases n - k,
        {
            if self.tiles[k] as u16 == tile_num {
                proof {
                    let c = self@.cell_of(tile_num as int);
                    assert(self.tiles@[c] as int == tile_num as int);
                    if c != k as int {
                        assert(self.tiles@[c] != self.tiles@[k as int]);
                    }
                    lemma_cell_in_grid(k as int, self.cols as int, self.rows as int);
                }
                let index = k as u8;
                return (index % self.cols, index / self.cols);
            }
            k += 1;
        }
        // not reached: every identifier below the length appears in the grid
        proof {
            let c = self@.cell_of(tile_num as int);
            assert(self.tiles@[c] as int == tile_num as int);
        }
        (0, 0)
    }

    /// Whether every tile stands on its goal cell.
    pub fn is_won(&self) -> (r: bool)
        ensures
            r == self@.is_solved(),
    {
        let n = self.tiles.len();
        let mut k: usize = 0;
        while k < n
            invariant
                n == self.tiles@.len(),
                k <= n,
                forall|j: int| 0 <= j < k ==> #[trigger] self.tiles@[j] as int == j,
            decreases n - k,
        {
            if self.tiles[k] as usize != k {
                assert(self@.cells[k as int] as int != k as int);
                assert(!self@.is_solved());
                return false;
            }
            k += 1;
        }
        true
    }

    /// Test whether a move can be done in the current state.
    pub fn is_valid_move(&mut self, m: Move) -> (r: bool)
        requires
            old(self).wf(),
        ensures
            r == old(self)@.allows(m),
            *final(self) == *old(self),
    {
        match m {
            Move::Up => self.empty_y < self.rows - 1,
            Move::Down => self.empty_y > 0,
            Move::Left => self.empty_x < self.cols - 1,
            Move::Right => self.empty_x > 0,
        }
    }

    /// Apply a move to the tiles. If the move is invalid, the tiles are
    /// left unchanged and `false` is returned.
    pub fn do_move(&mut self, m: Move) -> (r: bool)
        requires
            old(self).wf(),
        ensures
            final(self).wf(),
            r == old(self)@.allows(m),
            final(self)@ == old(self)@.after(m),
            !r ==> *final(self) == *old(self),
    {
        if !self.is_valid_move(m) {
            return false;
        }
        proof {
            lemma_after_wf(self@, m);
            lemma_index_in_grid(self.cols as int, self.rows as int, self.empty_x as int, self.empty_y as int);
            lemma_grid_size(self.cols as int, self.rows as int);
            let (nx, ny) = self@.target(m);
            lemma_index_in_grid(self.cols as int, self.rows as int, nx, ny);
        }
        let i: usize = self.empty_y as usize * self.cols as usize + self.empty_x as usize;
        match m {
            Move::Up => {
                swap_cells(&mut self.tiles, i, i + self.cols as usize);
                self.empty_y = self.empty_y + 1;
            },
            Move::Down => {
                swap_cells(&mut self.tiles, i, i - self.cols as usize);
                self.empty_y = self.empty_y - 1;
            },
            Move::Left => {
                swap_cells(&mut self.tiles, i, i + 1);
                self.empty_x = self.empty_x + 1;
            },
            Move::Right => {
                swap_cells(&mut self.tiles, i, i - 1);
                self.empty_x = self.empty_x - 1;
            },
        }
        true
    }
}

/// The move that a draw in `0..4` stands for.
pub fn move_from_draw(d: u16) -> (m: Move)
    requires
        d < 4,
    ensures
        m == move_of_draw(d),
{
    match d {
        0 => Move::Up,
        1 => Move::Down,
        2 => Move::Left,
        _ => Move::Right,
    }
}

impl Tiles {
    /// Apply the moves that the draws stand for, one draw after the other;
    /// draws whose move is not valid at their turn are skipped.
    pub fn shuffle_with_draws(&mut self, draws: &Vec<u16>)
        requires
            old(self).wf(),
            forall|i: int| 0 <= i < draws@.len() ==> #[trigger] draws@[i] < 4,
        ensures
            final(self).wf(),
            final(self).cols == old(self).cols,
            final(self).rows == old(self).rows,
            final(self)@ == old(self)@.run(moves_of_draws(draws@)),
    {
        let ghost start = self@;
        let mut k: usize = 0;
        while k < draws.len()
            invariant
                self.wf(),
                self.cols == start.cols,
                self.rows == start.rows,
                k <= draws@.len(),
                forall|i: int| 0 <= i < draws@.len() ==> #[trigger] draws@[i] < 4,
                self@ == start.run(moves_of_draws(draws@.take(k as int))),
            decreases draws@.len() - k,
        {
            let m = move_from_draw(draws[k]);
            self.do_move(m);
            proof {
                let done = moves_of_draws(draws@.take(k as int));
                assert(moves_of_draws(draws@.take(k + 1)) =~= done + seq![m]);
                lemma_run_concat(start, done, seq![m]);
                assert(seq![m].drop_first() =~= Seq::<Move>::empty());
                assert(start.run(done).run(seq![m]) == start.run(done).after(m).run(Seq::<Move>::empty()));
            }
            k += 1;
        }
        assert(draws@.take(draws@.len() as int) =~= draws@);
    }

    /// Shuffle the tiles by performing `iterations` random moves, each drawn
    /// uniformly from the four directions; draws that are not valid at their
    /// turn are skipped. More iterations means more randomness.
    pub fn shuffle(&mut self, rng: &mut Xorshift, iterations: u32)
        requires
            old(self).wf(),
        ensures
            final(self).wf(),
            final(self).cols == old(self).cols,
            final(self).rows == old(self).rows,
            exists|ms: Seq<Move>| ms.len() == iterations && final(self)@ == #[trigger] old(self)@.run(ms),
    {
        let mut draws: Vec<u16> = Vec::new();
        let mut k: u32 = 0;
        while k < iterations
            invariant
                k <= iterations,
                draws@.len() == k,
                forall|i: int| 0 <= i < draws@.len() ==> #[trigger] draws@[i] < 4,
            decreases iterations - k,
        {
            let d = draw_in_range(rng, 0, 4);
            draws.push(d);
            k += 1;
        }
        self.shuffle_with_draws(&draws);
        assert(moves_of_draws(draws@).len() == iterations);
    }
}

/// Exchange the cells at `i` and `j`.
fn swap_cells(v: &mut Vec<u8>, i: usize, j: usize)
    requires
        i < old(v)@.len(),
        j < old(v)@.len(),
    ensures
        final(v)@ == old(v)@.update(i as int, old(v)@[j as int]).update(j as int, old(v)@[i as int]),
{
    let a = v[i];
    let b = v[j];
    v[i] = b;
    v[j] = a;
}

pub proof fn lemma_grid_size(cols: int, rows: int)
    requires
        1 <= cols <= 16,
        1 <= rows <= 16,
    ensures
        1 <= cols * rows <= 256,
{
    assert(1 <= cols * rows <= 256) by (nonlinear_arith)
        requires
            1 <= cols <= 16,
            1 <= rows <= 16,
    ;
}

pub proof fn lemma_index_in_grid(cols: int, rows: int, x: int, y: int)
    requires
        0 <= x < cols,
        0 <= y < rows,
    ensures
        0 <= y * cols + x < cols * rows,
        (y + 1) * cols + x == y * cols + x + cols,
        (y - 1) * cols + x == y * cols + x - cols,
{
    assert(0 <= y * cols + x < cols * rows) by (nonlinear_arith)
        requires
            0 <= x < cols,
            0 <= y < rows,
    ;
    assert((y + 1) * cols + x == y * cols + x + cols) by (nonlinear_arith);
    assert((y - 1) * cols + x == y * cols + x - cols) by (nonlinear_arith);
}

/// Exchanging two cells keeps an arrangement an arrangement.
proof fn lemma_swap_arrangement(s: Seq<u8>, i: int, j: int)
    requires
        is_arrangement(s),
        0 <= i < s.len(),
        0 <= j < s.len(),
    ensures
        is_arrangement(s.update(i, s[j]).update(j, s[i])),
{
    let t = s.update(i, s[j]).update(j, s[i]);
    assert forall|id: int| 0 <= id < t.len() implies #[trigger] appears(t, id) by {
        assert(appears(s, id));
        let k = choose|k: int| 0 <= k < s.len() && s[k] as int == id;
        if k == i {
            assert(t[j] as int == id);
        } else if k == j {
            assert(t[i] as int == id);
        } else {
            assert(t[k] as int == id);
        }
    }
}

pub proof fn lemma_cell_in_grid(k: int, cols: int, rows: int)
    requires
        0 <= k < cols * rows,
        1 <= cols,
    ensures
        0 <= k % cols < cols,
        0 <= k / cols < rows,
        (k / cols) * cols + k % cols == k,
{
    vstd::arithmetic::div_mod::lemma_fundamental_div_mod(k, cols);
    vstd::arithmetic::div_mod::lemma_mod_bound(k, cols);
    vstd::arithmetic::div_mod::lemma_div_pos_is_pos(k, cols);
    let q = k / cols;
    assert(q * cols == cols * q) by (nonlinear_arith);
    if q >= rows {
        assert(cols * q >= cols * rows) by (nonlinear_arith)
            requires
                q >= rows,
                cols >= 1,
        ;
    }
}

/// A move keeps a well-formed board well formed.
pub proof fn lemma_after_wf(b: Board, m: Move)
    requires
        b.wf(),
    ensures
        b.after(m).wf(),
{
    if b.allows(m) {
        let (nx, ny) = b.target(m);
        lemma_index_in_grid(b.cols as int, b.rows as int, b.empty_x as int, b.empty_y as int);
        lemma_index_in_grid(b.cols as int, b.rows as int, nx, ny);
        lemma_swap_arrangement(b.cells, b.empty_index(), b.index(nx, ny));
    }
}

/// Sliding a tile and then sliding it back restores the board exactly, in
/// every direction and from every position where the first slide is legal.
pub proof fn lemma_move_round_trip(b: Board, m: Move)
    requires
        b.wf(),
        b.allows(m),
    ensures
        b.after(m).allows(m.inverse()),
        b.after(m).after(m.inverse()) == b,
{
    let (nx, ny) = b.target(m);
    lemma_index_in_grid(b.cols as int, b.rows as int, b.empty_x as int, b.empty_y as int);
    lemma_index_in_grid(b.cols as int, b.rows as int, nx, ny);
    let a = b.after(m);
    assert(a.target(m.inverse()) == (b.empty_x as int, b.empty_y as int));
    assert(a.after(m.inverse()).cells =~= b.cells);
}

/// Running two move sequences one after the other is running their
/// concatenation.
pub proof fn lemma_run_concat(b: Board, p: Seq<Move>, q: Seq<Move>)
    ensures
        b.run(p + q) == b.run(p).run(q),
    decreases p.len(),
{
    if p.len() == 0 {
        assert(p + q =~= q);
    } else {
        assert((p + q).drop_first() =~= p.drop_first() + q);
        lemma_run_concat(b.after(p[0]), p.drop_first(), q);
    }
}

/// Replaying in reverse the inverses of the moves that took effect brings
/// the board back to exactly where it started: every shuffled grid is
/// reachable from, and can be returned to, the solved one.
pub proof fn lemma_undo_restores(b: Board, ms: Seq<Move>)
    requires
        b.wf(),
    ensures
        b.run(ms).run(b.undo(ms)) == b,
    decreases ms.len(),
{
    if ms.len() > 0 {
        let m = ms[0];
        let b1 = b.after(m);
        let rest = ms.drop_first();
        lemma_after_wf(b, m);
        lemma_undo_restores(b1, rest);
        if b.allows(m) {
            let u = b1.undo(rest);
            assert(u.push(m.inverse()) =~= u + seq![m.inverse()]);
            lemma_run_concat(b1.run(rest), u, seq![m.inverse()]);
            lemma_move_round_trip(b, m);
            assert(seq![m.inverse()].drop_first() =~= Seq::<Move>::empty());
            assert(b1.run(seq![m.inverse()]) == b1.after(m.inverse()).run(Seq::<Move>::empty()));
            assert(b1.run(seq![m.inverse()]) == b);
            assert(b.undo(ms) == u.push(m.inverse()));
        } else {
            assert(b.undo(ms) == b1.undo(rest));
        }
        assert(b.run(ms) == b1.run(rest));
    }
}

/// The coordinate at which a tile is found holds that very tile: its goal
/// coordinate is the one its identifier names.
pub proof fn lemma_lookup_consistent(b: Board, id: int)
    requires
        b.wf(),
        0 <= id < b.len(),
    ensures
        0 <= b.location(id).0 < b.cols,
        0 <= b.location(id).1 < b.rows,
        b.goal_of(b.location(id).0, b.location(id).1) == (id % b.cols as int, id / b.cols as int),
{
    assert(appears(b.cells, id));
    let k = b.cell_of(id);
    lemma_cell_in_grid(k, b.cols as int, b.rows as int);
}

} // verus!
