use vstd::prelude::*;

use crate::cell::Tetromino;
use crate::grid::cleared_board;
use crate::grid::collides_at;
use crate::grid::empty_row_s;
use crate::grid::empty_rows;
use crate::grid::line_score;
use crate::grid::num_cleared;
use crate::grid::overlay;
use crate::grid::piece_covers;
use crate::grid::rect;
use crate::grid::rotate_grid;
use crate::grid::row_full;
use crate::grid::surviving_rows;
use crate::grid::view_grid;
use crate::grid::lemma_surviving_wf;
use crate::grid::lemma_surviving_take_step;
use crate::shapes::make_shape;
use crate::shapes::shape_s;
use crate::shapes::lemma_shape_wf;
use crate::shapes::SHAPE_COUNT;

use rand::rngs::SmallRng;
use rand::Rng;
use rand::SeedableRng;

verus! {

/// Relies on rand's `SmallRng`, seeded from the operating system, and
/// `Rng::random_range`: for the non-empty range `0..n` the result is a
/// uniformly distributed index strictly below `n`.
#[verifier::external_body]
fn random_below(n: usize) -> (r: usize)
    requires
        n >= 1,
    ensures
        r < n,
{
    let mut rng = SmallRng::from_os_rng();
    rng.random_range(0..n)
}

/// Builds a row of `width` empty cells.
fn make_empty_row(width: usize) -> (row: Vec<Tetromino>)
    ensures
        row@ == empty_row_s(width as int),
{
    let mut row: Vec<Tetromino> = Vec::new();
    let mut c: usize = 0;
    while c < width
        invariant
            c <= width,
            row@.len() == c as int,
            forall|j: int| #![trigger row@[j]] 0 <= j < c as int ==> row@[j] == Tetromino::Empty,
        decreases width - c,
    {
        row.push(Tetromino::Empty);
        c += 1;
    }
    proof {
        assert(row@ =~= empty_row_s(width as int));
    }
    row
}

/// Builds an all-empty board of `height` rows by `width` columns.
fn make_empty_board(width: usize, height: usize) -> (b: Vec<Vec<Tetromino>>)
    ensures
        view_grid(b) == empty_rows(height as int, width as int),
{
    let mut b: Vec<Vec<Tetromino>> = Vec::new();
    let mut r: usize = 0;
    while r < height
        invariant
            r <= height,
            b@.len() == r as int,
            forall|i: int|
                #![trigger b@[i]]
                0 <= i < r as int ==> b@[i]@ == empty_row_s(width as int),
        decreases height - r,
    {
        let row = make_empty_row(width);
        b.push(row);
        r += 1;
    }
    proof {
        assert(view_grid(b) =~~= empty_rows(height as int, width as int));
    }
    b
}

/// Reports whether every cell of the row is occupied.
fn row_is_full(row: &Vec<Tetromino>) -> (full: bool)
    ensures
        full == row_full(row@),
{
    let mut j: usize = 0;
    while j < row.len()
        invariant
            j <= row@.len(),
            forall|a: int| #![trigger row@[a]] 0 <= a < j as int ==> row@[a] != Tetromino::Empty,
        decreases row@.len() - j,
    {
        if row[j] == Tetromino::Empty {
            return false;
        }
        j += 1;
    }
    true
}

/// Builds the quarter-turn rotation of a non-empty rectangular piece grid.
fn rotate_piece(p: &Vec<Vec<Tetromino>>) -> (q: Vec<Vec<Tetromino>>)
    requires
        1 <= p@.len() <= 4,
        p@[0]@.len() >= 1,
        forall|i: int| #![trigger p@[i]] 0 <= i < p@.len() ==> p@[i]@.len() == p@[0]@.len(),
    ensures
        view_grid(q) == rotate_grid(view_grid(*p)),
{
    let rows = p.len();
    let cols = p[0].len();
    let mut q: Vec<Vec<Tetromino>> = Vec::new();
    let mut j: usize = 0;
    while j < cols
        invariant
            j <= cols,
            q@.len() == j as int,
            rows == p@.len(),
            cols == p@[0]@.len(),
            1 <= rows <= 4,
            cols >= 1,
            forall|i: int| #![trigger p@[i]] 0 <= i < p@.len() ==> p@[i]@.len() == cols as int,
            forall|a: int|
                #![trigger q@[a]]
                0 <= a < j as int ==> q@[a]@ == rotate_grid(view_grid(*p))[a],
        decreases cols - j,
    {
        let mut row: Vec<Tetromino> = Vec::new();
        let mut k: usize = 0;
        while k < rows
            invariant
                k <= rows,
                j < cols,
                row@.len() == k as int,
                rows == p@.len(),
                cols == p@[0]@.len(),
                1 <= rows <= 4,
                cols >= 1,
                forall|i: int| #![trigger p@[i]] 0 <= i < p@.len() ==> p@[i]@.len() == cols as int,
                forall|a: int|
                    #![trigger row@[a]]
                    0 <= a < k as int ==> row@[a] == view_grid(*p)[rows - 1 - a][j as int],
            decreases rows - k,
        {
            let prow = &p[rows - 1 - k];
            row.push(prow[j]);
            k += 1;
        }
        proof {
            assert(row@ =~= rotate_grid(view_grid(*p))[j as int]);
        }
        q.push(row);
        j += 1;
    }
    proof {
        assert(view_grid(q) =~~= rotate_grid(view_grid(*p)));
    }
    q
}

/// The rules engine of a falling-block puzzle game: it owns the settled
/// board, the currently falling piece, the score, and the game-over flag, and
/// it exposes the movement, rotation, locking, line-clearing, and scoring
/// rules as plain synchronous calls. It does no input, output, or timing of
/// its own; a driver calls `move_down` on its gravity cadence and the other
/// commands on input events.
pub struct Tetris {
    width: usize,
    height: usize,
    board: Vec<Vec<Tetromino>>,
    current_piece: Vec<Vec<Tetromino>>,
    current_x: i32,
    current_y: i32,
    game_over: bool,
    score: u32,
}

impl Tetris {
    /// The board width, as a mathematical integer.
    pub closed spec fn spec_width(&self) -> int {
        self.width as int
    }

    /// The board height, as a mathematical integer.
    pub closed spec fn spec_height(&self) -> int {
        self.height as int
    }

    /// The settled board, row by row.
    pub closed spec fn board_s(&self) -> Seq<Seq<Tetromino>> {
        view_grid(self.board)
    }

    /// The active piece's shape grid (empty when no piece is active).
    pub closed spec fn piece_s(&self) -> Seq<Seq<Tetromino>> {
        view_grid(self.current_piece)
    }

    /// The board column of the piece grid's left edge.
    pub closed spec fn x_s(&self) -> int {
        self.current_x as int
    }

    /// The board row of the piece grid's top edge.
    pub closed spec fn y_s(&self) -> int {
        self.current_y as int
    }

    /// Whether the game has ended.
    pub closed spec fn over_s(&self) -> bool {
        self.game_over
    }

    /// The score so far.
    pub closed spec fn score_s(&self) -> int {
        self.score as int
    }

    /// There is an active piece to move.
    pub open spec fn has_piece(&self) -> bool {
        self.piece_s().len() > 0
    }

    /// Both dimensions agree with `o`'s.
    pub open spec fn same_dims(&self, o: &Tetris) -> bool {
        self.spec_width() == o.spec_width() && self.spec_height() == o.spec_height()
    }

    /// Structural well-formedness: positive dimensions within the signed
    /// 32-bit range that the offsets use, a board of exactly those
    /// dimensions, an active piece (when present) that is a rectangle of at
    /// most 4 by 4 cells with at least one occupied cell, and offsets in the
    /// range that spawning and legal movement can produce.
    pub closed spec fn wf(&self) -> bool {
        &&& 1 <= self.width as int <= 0x7fff_ffff
        &&& 1 <= self.height as int <= 0x7fff_ffff
        &&& rect(self.board_s(), self.height as int, self.width as int)
        &&& self.piece_s().len() <= 4
        &&& (self.piece_s().len() > 0 ==> {
            &&& 1 <= self.piece_s()[0].len() <= 4
            &&& rect(self.piece_s(), self.piece_s().len() as int, self.piece_s()[0].len() as int)
            &&& exists|i: int, j: int|
                #![trigger self.piece_s()[i][j]]
                0 <= i < self.piece_s().len() && 0 <= j < self.piece_s()[i].len()
                    && self.piece_s()[i][j] != Tetromino::Empty
        })
        &&& (self.piece_s().len() == 0 ==> self.current_x as int == 0 && self.current_y as int
            == 0)
        &&& -3 <= self.current_x as int <= self.width as int - 1
        &&& 0 <= self.current_y as int <= self.height as int - 1
    }

    /// The active piece at its current offset overlaps a settled block or
    /// sticks out of the grid.
    pub open spec fn colliding(&self) -> bool {
        collides_at(
            self.board_s(),
            self.spec_width(),
            self.spec_height(),
            self.piece_s(),
            self.x_s(),
            self.y_s(),
        )
    }

    /// Makes an engine with an all-empty `width` by `height` board, no active
    /// piece, a zero score, and the game running. Both dimensions must be
    /// positive, and they must fit the signed 32-bit offset range the piece
    /// position uses.
    pub fn new(width: usize, height: usize) -> (t: Tetris)
        requires
            1 <= width <= 0x7fff_ffff,
            1 <= height <= 0x7fff_ffff,
        ensures
            t.wf(),
            t.spec_width() == width as int,
            t.spec_height() == height as int,
            t.board_s() == empty_rows(height as int, width as int),
            !t.has_piece(),
            !t.over_s(),
            t.score_s() == 0,
    {
        let board = make_empty_board(width, height);
        let t = Tetris {
            width,
            height,
            board,
            current_piece: Vec::new(),
            current_x: 0,
            current_y: 0,
            game_over: false,
            score: 0,
        };
        proof {
            assert(rect(t.board_s(), height as int, width as int));
        }
        t
    }

    /// The board width.
    pub fn width(&self) -> (w: usize)
        ensures
            w as int == self.spec_width(),
    {
        self.width
    }

    /// The board height.
    pub fn height(&self) -> (h: usize)
        ensures
            h as int == self.spec_height(),
    {
        self.height
    }

    /// The score so far.
    pub fn get_score(&self) -> (s: u32)
        ensures
            s as int == self.score_s(),
    {
        self.score
    }

    /// Whether the game has ended.
    pub fn is_game_over(&self) -> (over: bool)
        ensures
            over == self.over_s(),
    {
        self.game_over
    }

    /// Reports whether the piece grid `p`, with its top-left corner at board
    /// position (`py`, `px`), collides with the board edge or a settled
    /// block.
    fn hits(&self, p: &Vec<Vec<Tetromino>>, px: i32, py: i32) -> (r: bool)
        requires
            self.wf(),
            p@.len() <= 4,
            forall|i: int| #![trigger p@[i]] 0 <= i < p@.len() ==> p@[i]@.len() <= 4,
        ensures
            r == collides_at(
                self.board_s(),
                self.spec_width(),
                self.spec_height(),
                view_grid(*p),
                px as int,
                py as int,
            ),
    {
        let mut i: usize = 0;
        while i < p.len()
            invariant
                self.wf(),
                p@.len() <= 4,
                forall|a: int| #![trigger p@[a]] 0 <= a < p@.len() ==> p@[a]@.len() <= 4,
                i <= p@.len(),
                forall|a: int, b: int|
                    #![trigger view_grid(*p)[a][b]]
                    (0 <= a < i as int && 0 <= b < view_grid(*p)[a].len() && view_grid(*p)[a][b]
                        != Tetromino::Empty) ==> (0 <= py as int + a < self.spec_height() && 0 <= px
                        as int + b < self.spec_width() && self.board_s()[py as int + a][px as int
                        + b] == Tetromino::Empty),
            decreases p@.len() - i,
        {
            let prow = &p[i];
            let mut j: usize = 0;
            while j < prow.len()
                invariant
                    self.wf(),
                    i < p@.len(),
                    p@.len() <= 4,
                    prow@ == p@[i as int]@,
                    prow@.len() <= 4,
                    j <= prow@.len(),
                    forall|a: int, b: int|
                        #![trigger view_grid(*p)[a][b]]
                        (0 <= a < i as int && 0 <= b < view_grid(*p)[a].len() && view_grid(*p)[a][b]
                            != Tetromino::Empty) ==> (0 <= py as int + a < self.spec_height() && 0
                            <= px as int + b < self.spec_width() && self.board_s()[py as int
                            + a][px as int + b] == Tetromino::Empty),
                    forall|b: int|
                        #![trigger prow@[b]]
                        (0 <= b < j as int && prow@[b] != Tetromino::Empty) ==> (0 <= py as int + i
                            < self.spec_height() && 0 <= px as int + b < self.spec_width()
                            && self.board_s()[py as int + i][px as int + b] == Tetromino::Empty),
                decreases prow@.len() - j,
            {
                if prow[j] != Tetromino::Empty {
                    let by: i64 = py as i64 + i as i64;
                    let bx: i64 = px as i64 + j as i64;
                    if by < 0 || by >= self.height as i64 || bx < 0 || bx >= self.width as i64 {
                        proof {
                            assert(view_grid(*p)[i as int][j as int] != Tetromino::Empty);
                        }
                        return true;
                    }
                    let brow = &self.board[by as usize];
                    if brow[bx as usize] != Tetromino::Empty {
                        proof {
                            assert(view_grid(*p)[i as int][j as int] != Tetromino::Empty);
                        }
                        return true;
                    }
                }
                j += 1;
            }
            proof {
                assert forall|b: int|
                    0 <= b < view_grid(*p)[i as int].len() && view_grid(*p)[i as int][b]
                        != Tetromino::Empty implies (0 <= py as int + i < self.spec_height() && 0
                    <= px as int + b < self.spec_width() && self.board_s()[py as int + i][px as int
                    + b] == Tetromino::Empty) by {
                    assert(prow@[b] != Tetromino::Empty);
                }
            }
            i += 1;
        }
        false
    }

    /// Reports whether the active piece collides at its current offset.
    fn check_collision(&self) -> (r: bool)
        requires
            self.wf(),
        ensures
            r == self.colliding(),
    {
        proof {
            assert forall|i: int| 0 <= i < self.current_piece@.len() implies self.current_piece@[i]@.len()
                <= 4 by {
                assert(self.piece_s()[i] == self.current_piece@[i]@);
                assert(self.piece_s()[i].len() == self.piece_s()[0].len());
            }
        }
        self.hits(&self.current_piece, self.current_x, self.current_y)
    }

    /// Builds the rendered board: the settled rows with the active piece's
    /// in-bounds occupied cells written on top.
    fn overlaid_board(&self) -> (nb: Vec<Vec<Tetromino>>)
        requires
            self.wf(),
        ensures
            view_grid(nb) == overlay(self.board_s(), self.piece_s(), self.x_s(), self.y_s()),
    {
        let ghost ov = overlay(self.board_s(), self.piece_s(), self.x_s(), self.y_s());
        let mut nb: Vec<Vec<Tetromino>> = Vec::new();
        let mut r: usize = 0;
        while r < self.height
            invariant
                self.wf(),
                r <= self.height,
                nb@.len() == r as int,
                ov == overlay(self.board_s(), self.piece_s(), self.x_s(), self.y_s()),
                forall|a: int| #![trigger nb@[a]] 0 <= a < r as int ==> nb@[a]@ == ov[a],
            decreases self.height - r,
        {
            let brow = &self.board[r];
            let mut row: Vec<Tetromino> = Vec::new();
            let mut c: usize = 0;
            while c < self.width
                invariant
                    self.wf(),
                    r < self.height,
                    c <= self.width,
                    brow@ == self.board_s()[r as int],
                    row@.len() == c as int,
                    ov == overlay(self.board_s(), self.piece_s(), self.x_s(), self.y_s()),
                    forall|b: int| #![trigger row@[b]] 0 <= b < c as int ==> row@[b] == ov[r as int][b],
                decreases self.width - c,
            {
                let mut v: Tetromino = brow[c];
                let ri: i64 = r as i64 - self.current_y as i64;
                if 0 <= ri && ri < self.current_piece.len() as i64 {
                    let prow = &self.current_piece[ri as usize];
                    let ci: i64 = c as i64 - self.current_x as i64;
                    if 0 <= ci && ci < prow.len() as i64 {
                        let pc = prow[ci as usize];
                        if pc != Tetromino::Empty {
                            v = pc;
                        }
                    }
                }
                proof {
                    if piece_covers(self.piece_s(), self.x_s(), self.y_s(), r as int, c as int) {
                        assert(v == self.piece_s()[r as int - self.y_s()][c as int - self.x_s()]);
                    } else {
                        assert(v == self.board_s()[r as int][c as int]);
                    }
                    assert(v == ov[r as int][c as int]);
                }
                row.push(v);
                c += 1;
            }
            proof {
                assert(row@ =~= ov[r as int]);
            }
            nb.push(row);
            r += 1;
        }
        proof {
            assert(view_grid(nb) =~~= ov);
        }
        nb
    }

    /// Removes every full row, top to bottom, inserting a fresh empty row at
    /// the top for each, and returns the score value of this clearing step:
    /// 0, 100, 300, 500, or 800 points for 0, 1, 2, 3, or 4 cleared rows (and
    /// 0 for any larger count, which locking a single piece cannot produce).
    #[verifier::loop_isolation(false)]
    pub fn clear_lines(&mut self) -> (points: u32)
        requires
            old(self).wf(),
        ensures
            final(self).wf(),
            final(self).board_s() == cleared_board(old(self).board_s(), old(self).spec_width()),
            points as int == line_score(num_cleared(old(self).board_s())),
            0 <= num_cleared(old(self).board_s()) <= old(self).spec_height(),
            final(self).spec_width() == old(self).spec_width(),
            final(self).spec_height() == old(self).spec_height(),
            final(self).piece_s() == old(self).piece_s(),
            final(self).x_s() == old(self).x_s(),
            final(self).y_s() == old(self).y_s(),
            final(self).over_s() == old(self).over_s(),
            final(self).score_s() == old(self).score_s(),
    {
        let ghost orig: Seq<Seq<Tetromino>> = self.board_s();
        let ghost w: int = self.spec_width();
        let ghost h: int = self.spec_height();
        let mut cleared: u32 = 0;
        let mut y: usize = 0;
        let ghost mut s: int = 0;
        while y < self.height
            invariant
                self.width == old(self).width,
                self.height == old(self).height,
                self.current_piece == old(self).current_piece,
                self.current_x == old(self).current_x,
                self.current_y == old(self).current_y,
                self.game_over == old(self).game_over,
                self.score == old(self).score,
                y as int <= s <= h,
                cleared as int == s - surviving_rows(orig.take(s)).len(),
                surviving_rows(orig.take(s)).len() <= s,
                self.board@.len() == h,
                self.board_s() == empty_rows(cleared as int, w) + surviving_rows(orig.take(s))
                    + orig.skip(s),
                forall|i: int|
                    #![trigger self.board_s()[i]]
                    0 <= i < s ==> !row_full(self.board_s()[i]),
            decreases (h - y as int) + (h - s),
        {
            let full = row_is_full(&self.board[y]);
            proof {
                assert(self.board_s()[y as int] == self.board@[y as int]@);
                assert((empty_rows(cleared as int, w) + surviving_rows(orig.take(s))).len() == s);
            }
            if full {
                proof {
                    if (y as int) < s {
                        assert(!row_full(self.board_s()[y as int]));
                        assert(false);
                    }
                    assert(y as int == s);
                    assert(self.board_s()[y as int] == orig.skip(s)[0]);
                    assert(orig.skip(s)[0] == orig[s]);
                    assert(row_full(orig[s]));
                }
                let ghost bpre = self.board@;
                let ghost vpre = self.board_s();
                self.board.remove(y);
                let er = make_empty_row(self.width);
                let ghost erv = er@;
                self.board.insert(0, er);
                cleared = cleared + 1;
                proof {
                    lemma_surviving_take_step(orig, s);
                    let sold = s;
                    s = s + 1;
                    let c = cleared as int;
                    let survivors = surviving_rows(orig.take(s));
                    let target = empty_rows(c, w) + survivors + orig.skip(s);
                    assert(survivors == surviving_rows(orig.take(sold)));
                    let rem = bpre.remove(sold);
                    assert(self.board@ == rem.insert(0, er));
                    assert forall|i: int| 0 <= i < h implies self.board_s()[i] == target[i] by {
                        assert(self.board_s()[i] == self.board@[i]@);
                        if i == 0 {
                            assert(self.board@[0]@ == erv);
                            assert(erv == empty_row_s(w));
                            assert(target[0] == empty_row_s(w));
                        } else {
                            assert(self.board@[i] == rem[i - 1]);
                            if i - 1 < sold {
                                assert(rem[i - 1] == bpre[i - 1]);
                                assert(vpre[i - 1] == bpre[i - 1]@);
                                if i - 1 < c - 1 {
                                    assert(vpre[i - 1] == empty_row_s(w));
                                    assert(target[i] == empty_row_s(w));
                                } else {
                                    assert(vpre[i - 1] == surviving_rows(orig.take(sold))[i - 1 - (c
                                        - 1)]);
                                    assert(target[i] == survivors[i - c]);
                                }
                            } else {
                                assert(rem[i - 1] == bpre[i]);
                                assert(vpre[i] == bpre[i]@);
                                assert(vpre[i] == orig.skip(sold)[i - sold]);
                                assert(orig.skip(sold)[i - sold] == orig[i]);
                                assert(target[i] == orig.skip(s)[i - s]);
                                assert(orig.skip(s)[i - s] == orig[i]);
                            }
                        }
                    }
                    assert(self.board_s() =~= target);
                    assert(empty_row_s(w)[0] == Tetromino::Empty);
                    assert(!row_full(empty_row_s(w)));
                    assert forall|i: int| 0 <= i < s implies !row_full(self.board_s()[i]) by {
                        if i < cleared as int {
                            assert(self.board_s()[i] == empty_row_s(w));
                        } else {
                            assert(self.board_s()[i] == surviving_rows(orig.take(s))[i
                                - cleared as int]);
                            lemma_surviving_wf(orig.take(s), w);
                        }
                    }
                }
            } else {
                proof {
                    if y as int == s {
                        lemma_surviving_take_step(orig, s);
                        assert(self.board_s()[y as int] == orig.skip(s)[0]);
                        assert(orig.skip(s)[0] == orig[s]);
                        assert(!row_full(orig[s]));
                        s = s + 1;
                        assert(self.board_s() =~= empty_rows(cleared as int, w) + surviving_rows(
                            orig.take(s),
                        ) + orig.skip(s));
                        assert forall|i: int| 0 <= i < s implies !row_full(self.board_s()[i]) by {
                            if i < cleared as int {
                                assert(self.board_s()[i] == empty_row_s(w));
                                assert(empty_row_s(w)[0] == Tetromino::Empty);
                            } else {
                                assert(self.board_s()[i] == surviving_rows(orig.take(s))[i
                                    - cleared as int]);
                                lemma_surviving_wf(orig.take(s), w);
                            }
                        }
                    }
                }
                y += 1;
            }
        }
        proof {
            assert(s == h);
            assert(orig.take(s) =~= orig);
            assert(orig.skip(s) =~= Seq::<Seq<Tetromino>>::empty());
            assert(self.board_s() =~= cleared_board(orig, w));
            assert(cleared as int == num_cleared(orig));
            lemma_surviving_wf(orig, w);
            assert forall|i: int| 0 <= i < h implies self.board_s()[i].len() == w by {
                if i < cleared as int {
                    assert(self.board_s()[i] == empty_row_s(w));
                } else {
                    assert(self.board_s()[i] == surviving_rows(orig)[i - cleared as int]);
                }
            }
            assert(rect(self.board_s(), h, w));
        }
        if cleared == 1 {
            100
        } else if cleared == 2 {
            300
        } else if cleared == 3 {
            500
        } else if cleared == 4 {
            800
        } else {
            0
        }
    }

    /// Every row of the active piece's grid is at most 4 cells wide.
    proof fn lemma_piece_rows_small(&self)
        requires
            self.wf(),
        ensures
            forall|i: int|
                #![trigger self.current_piece@[i]]
                0 <= i < self.current_piece@.len() ==> self.current_piece@[i]@.len() <= 4,
    {
        assert forall|i: int|
            0 <= i < self.current_piece@.len() implies self.current_piece@[i]@.len() <= 4 by {
            assert(self.piece_s()[i] == self.current_piece@[i]@);
            assert(self.piece_s()[i].len() == self.piece_s()[0].len());
        }
    }

    /// A collision-free position of the active piece keeps its offsets inside
    /// the ranges that `wf` demands.
    proof fn lemma_free_position_bounds(&self, x: int, y: int)
        requires
            self.wf(),
            self.has_piece(),
            !collides_at(
                self.board_s(),
                self.spec_width(),
                self.spec_height(),
                self.piece_s(),
                x,
                y,
            ),
        ensures
            -3 <= x <= self.spec_width() - 1,
            y <= self.spec_height() - 1,
    {
        let (i, j) = choose|i: int, j: int|
            #![trigger self.piece_s()[i][j]]
            0 <= i < self.piece_s().len() && 0 <= j < self.piece_s()[i].len() && self.piece_s()[i][j]
                != Tetromino::Empty;
        assert(self.piece_s()[i][j] != Tetromino::Empty);
        assert(0 <= y + i < self.spec_height());
        assert(0 <= x + j < self.spec_width());
        assert(self.piece_s()[i].len() == self.piece_s()[0].len());
    }

    /// `post` is `pre` with the active piece moved to offset (`x`, `y`) and
    /// everything else unchanged.
    pub open spec fn shifted(pre: Tetris, post: Tetris, x: int, y: int) -> bool {
        &&& post.spec_width() == pre.spec_width()
        &&& post.spec_height() == pre.spec_height()
        &&& post.board_s() == pre.board_s()
        &&& post.piece_s() == pre.piece_s()
        &&& post.x_s() == x
        &&& post.y_s() == y
        &&& post.over_s() == pre.over_s()
        &&& post.score_s() == pre.score_s()
    }

    /// The state change of one locking step from `pre`, with the piece
    /// resting at vertical offset `rest`: the piece's in-bounds cells are
    /// written into the board, full rows clear and score (the running score
    /// saturates at its maximum), and the canonical shape of index `k` spawns
    /// centred at the top; the game ends exactly when that spawn collides at
    /// once.
    pub open spec fn locked_outcome(pre: Tetris, rest: int, k: int, post: Tetris) -> bool {
        let locked = overlay(pre.board_s(), pre.piece_s(), pre.x_s(), rest);
        let after = cleared_board(locked, pre.spec_width());
        let gained = line_score(num_cleared(locked));
        &&& post.spec_width() == pre.spec_width()
        &&& post.spec_height() == pre.spec_height()
        &&& post.board_s() == after
        &&& post.score_s() == (if pre.score_s() + gained <= u32::MAX as int {
            pre.score_s() + gained
        } else {
            u32::MAX as int
        })
        &&& post.piece_s() == shape_s(k)
        &&& post.x_s() == pre.spec_width() / 2 - shape_s(k)[0].len() / 2
        &&& post.y_s() == 0
        &&& post.over_s() == collides_at(
            after,
            pre.spec_width(),
            pre.spec_height(),
            shape_s(k),
            post.x_s(),
            0,
        )
    }

    /// Installs the canonical shape of index `shape_index` as the active
    /// piece, horizontally centred (`width / 2 - shape_width / 2`, rounding
    /// down) with its top edge at row 0. The board, score, and game-over flag
    /// are untouched, and no collision check happens here: the caller decides
    /// what an immediately colliding spawn means.
    pub fn spawn_piece_index(&mut self, shape_index: usize)
        requires
            old(self).wf(),
            shape_index < 7,
        ensures
            final(self).wf(),
            final(self).piece_s() == shape_s(shape_index as int),
            final(self).x_s() == old(self).spec_width() / 2 - shape_s(shape_index as int)[0].len()
                / 2,
            final(self).y_s() == 0,
            final(self).spec_width() == old(self).spec_width(),
            final(self).spec_height() == old(self).spec_height(),
            final(self).board_s() == old(self).board_s(),
            final(self).over_s() == old(self).over_s(),
            final(self).score_s() == old(self).score_s(),
    {
        let p = make_shape(shape_index);
        proof {
            lemma_shape_wf(shape_index as int);
            assert(p@.len() == view_grid(p).len());
            assert(p@[0]@ == view_grid(p)[0]);
        }
        let pw = p[0].len();
        self.current_piece = p;
        self.current_x = (self.width / 2) as i32 - (pw / 2) as i32;
        self.current_y = 0;
        proof {
            assert(self.width as int / 2 <= self.width as int - 1);
        }
    }

    /// Spawns one of the seven canonical shapes, chosen uniformly at random,
    /// as the new active piece, centred at the top. Which shape arrives is up
    /// to the randomness source; everything else about the new state is
    /// fixed.
    pub fn spawn_piece(&mut self)
        requires
            old(self).wf(),
        ensures
            final(self).wf(),
            final(self).y_s() == 0,
            exists|k: int|
                #![trigger shape_s(k)]
                0 <= k < 7 && final(self).piece_s() == shape_s(k) && final(self).x_s() == old(
                    self,
                ).spec_width() / 2 - shape_s(k)[0].len() / 2,
            final(self).spec_width() == old(self).spec_width(),
            final(self).spec_height() == old(self).spec_height(),
            final(self).board_s() == old(self).board_s(),
            final(self).over_s() == old(self).over_s(),
            final(self).score_s() == old(self).score_s(),
    {
        let k = random_below(SHAPE_COUNT);
        self.spawn_piece_index(k);
        proof {
            assert(0 <= (k as int) && (k as int) < 7 && self.piece_s() == shape_s(k as int)
                && self.x_s() == old(self).spec_width() / 2 - shape_s(k as int)[0].len() / 2);
        }
    }

    /// Shifts the active piece one column to the left. Reports `false` and
    /// leaves the state unchanged when the game is over, no piece is active,
    /// or the shifted piece would collide; otherwise commits the shift and
    /// reports `true`.
    pub fn move_left(&mut self) -> (moved: bool)
        requires
            old(self).wf(),
        ensures
            final(self).wf(),
            (old(self).over_s() || !old(self).has_piece()) ==> !moved && *final(self) == *old(self),
            (!old(self).over_s() && old(self).has_piece()) ==> {
                &&& moved == !collides_at(
                    old(self).board_s(),
                    old(self).spec_width(),
                    old(self).spec_height(),
                    old(self).piece_s(),
                    old(self).x_s() - 1,
                    old(self).y_s(),
                )
                &&& (!moved ==> *final(self) == *old(self))
                &&& (moved ==> Self::shifted(
                    *old(self),
                    *final(self),
                    old(self).x_s() - 1,
                    old(self).y_s(),
                ))
            },
    {
        if self.game_over {
            return false;
        }
        if self.current_piece.len() == 0 {
            return false;
        }
        proof {
            self.lemma_piece_rows_small();
        }
        if self.hits(&self.current_piece, self.current_x - 1, self.current_y) {
            false
        } else {
            proof {
                self.lemma_free_position_bounds(self.x_s() - 1, self.y_s());
            }
            self.current_x = self.current_x - 1;
            true
        }
    }

    /// Shifts the active piece one column to the right. Reports `false` and
    /// leaves the state unchanged when the game is over, no piece is active,
    /// or the shifted piece would collide; otherwise commits the shift and
    /// reports `true`.
    pub fn move_right(&mut self) -> (moved: bool)
        requires
            old(self).wf(),
        ensures
            final(self).wf(),
            (old(self).over_s() || !old(self).has_piece()) ==> !moved && *final(self) == *old(self),
            (!old(self).over_s() && old(self).has_piece()) ==> {
                &&& moved == !collides_at(
                    old(self).board_s(),
                    old(self).spec_width(),
                    old(self).spec_height(),
                    old(self).piece_s(),
                    old(self).x_s() + 1,
                    old(self).y_s(),
                )
                &&& (!moved ==> *final(self) == *old(self))
                &&& (moved ==> Self::shifted(
                    *old(self),
                    *final(self),
                    old(self).x_s() + 1,
                    old(self).y_s(),
                ))
            },
    {
        if self.game_over {
            return false;
        }
        if self.current_piece.len() == 0 {
            return false;
        }
        proof {
            self.lemma_piece_rows_small();
        }
        if self.hits(&self.current_piece, self.current_x + 1, self.current_y) {
            false
        } else {
            proof {
                self.lemma_free_position_bounds(self.x_s() + 1, self.y_s());
            }
            self.current_x = self.current_x + 1;
            true
        }
    }

    /// Replaces the active piece by its quarter-turn rotation, keeping the
    /// offset. Reports `false` and leaves the state unchanged when the game
    /// is over, no piece is active, or the rotated piece would collide at the
    /// unchanged offset; no offset adjustment ("wall kick") rescues a
    /// colliding rotation. Freezing rotation once the game is over is fixed
    /// policy here, matching the other movement commands.
    pub fn rotate(&mut self) -> (rotated: bool)
        requires
            old(self).wf(),
        ensures
            final(self).wf(),
            (old(self).over_s() || !old(self).has_piece()) ==> !rotated && *final(self) == *old(
                self,
            ),
            (!old(self).over_s() && old(self).has_piece()) ==> {
                &&& rotated == !collides_at(
                    old(self).board_s(),
                    old(self).spec_width(),
                    old(self).spec_height(),
                    rotate_grid(old(self).piece_s()),
                    old(self).x_s(),
                    old(self).y_s(),
                )
                &&& (!rotated ==> *final(self) == *old(self))
                &&& (rotated ==> {
                    &&& final(self).piece_s() == rotate_grid(old(self).piece_s())
                    &&& final(self).spec_width() == old(self).spec_width()
                    &&& final(self).spec_height() == old(self).spec_height()
                    &&& final(self).board_s() == old(self).board_s()
                    &&& final(self).x_s() == old(self).x_s()
                    &&& final(self).y_s() == old(self).y_s()
                    &&& final(self).over_s() == old(self).over_s()
                    &&& final(self).score_s() == old(self).score_s()
                })
            },
    {
        if self.game_over {
            return false;
        }
        if self.current_piece.len() == 0 {
            return false;
        }
        proof {
            self.lemma_piece_rows_small();
            assert forall|i: int|
                0 <= i < self.current_piece@.len() implies (#[trigger] self.current_piece@[i])@.len()
                == self.current_piece@[0]@.len() by {
                assert(self.piece_s()[i] == self.current_piece@[i]@);
                assert(self.piece_s()[0] == self.current_piece@[0]@);
                assert(self.piece_s()[i].len() == self.piece_s()[0].len());
            }
        }
        let rp = rotate_piece(&self.current_piece);
        proof {
            assert(rp@.len() == view_grid(rp).len());
            assert(view_grid(rp) == rotate_grid(self.piece_s()));
            assert(view_grid(rp).len() == self.piece_s()[0].len());
            assert forall|i: int| 0 <= i < rp@.len() implies (#[trigger] rp@[i])@.len() <= 4 by {
                assert(rp@[i]@ == view_grid(rp)[i]);
                assert(view_grid(rp)[i] == rotate_grid(self.piece_s())[i]);
                assert(rotate_grid(self.piece_s())[i].len() == self.piece_s().len());
            }
        }
        if self.hits(&rp, self.current_x, self.current_y) {
            false
        } else {
            proof {
                let (i, j) = choose|i: int, j: int|
                    #![trigger self.piece_s()[i][j]]
                    0 <= i < self.piece_s().len() && 0 <= j < self.piece_s()[i].len()
                        && self.piece_s()[i][j] != Tetromino::Empty;
                assert(self.piece_s()[i].len() == self.piece_s()[0].len());
                assert(rotate_grid(self.piece_s())[j][self.piece_s().len() - 1 - i]
                    == self.piece_s()[i][j]);
            }
            self.current_piece = rp;
            true
        }
    }

    /// One gravity step. While the game runs and a piece is active: when the
    /// piece can fall one row it does so and the call reports `true`;
    /// otherwise the piece locks where it stands, full rows clear and score,
    /// a random piece spawns, a spawn that immediately collides ends the
    /// game, and the call reports `false`. A finished game or a missing piece
    /// leaves the state unchanged and reports `false`.
    pub fn move_down(&mut self) -> (falling: bool)
        requires
            old(self).wf(),
        ensures
            final(self).wf(),
            (old(self).over_s() || !old(self).has_piece()) ==> !falling && *final(self) == *old(
                self,
            ),
            (!old(self).over_s() && old(self).has_piece()) ==> {
                &&& falling == !collides_at(
                    old(self).board_s(),
                    old(self).spec_width(),
                    old(self).spec_height(),
                    old(self).piece_s(),
                    old(self).x_s(),
                    old(self).y_s() + 1,
                )
                &&& (falling ==> Self::shifted(
                    *old(self),
                    *final(self),
                    old(self).x_s(),
                    old(self).y_s() + 1,
                ))
                &&& (!falling ==> exists|k: int|
                    #![trigger Self::locked_outcome(*old(self), old(self).y_s(), k, *final(self))]
                    0 <= k < 7 && Self::locked_outcome(
                        *old(self),
                        old(self).y_s(),
                        k,
                        *final(self),
                    ))
            },
    {
        if self.game_over {
            return false;
        }
        if self.current_piece.len() == 0 {
            return false;
        }
        proof {
            self.lemma_piece_rows_small();
        }
        if !self.hits(&self.current_piece, self.current_x, self.current_y + 1) {
            proof {
                self.lemma_free_position_bounds(self.x_s(), self.y_s() + 1);
            }
            self.current_y = self.current_y + 1;
            return true;
        }
        let locked = self.overlaid_board();
        self.board = locked;
        proof {
            assert forall|i: int|
                0 <= i < self.spec_height() implies self.board_s()[i].len() == self.spec_width() by {
                assert(self.board_s()[i] == overlay(
                    old(self).board_s(),
                    old(self).piece_s(),
                    old(self).x_s(),
                    old(self).y_s(),
                )[i]);
            }
            assert(rect(self.board_s(), self.spec_height(), self.spec_width()));
        }
        let gained = self.clear_lines();
        if self.score <= u32::MAX - gained {
            self.score = self.score + gained;
        } else {
            self.score = u32::MAX;
        }
        self.spawn_piece();
        let stuck = self.check_collision();
        if stuck {
            self.game_over = true;
        }
        proof {
            let k = choose|k: int|
                #![trigger shape_s(k)]
                0 <= k < 7 && self.piece_s() == shape_s(k) && self.x_s() == old(self).spec_width()
                    / 2 - shape_s(k)[0].len() / 2;
            assert(Self::locked_outcome(*old(self), old(self).y_s(), k, *self));
        }
        false
    }

    /// Applies gravity steps until the piece settles: the piece falls
    /// straight down to its resting row, locks there, full rows clear and
    /// score, and a random piece spawns — all in one synchronous call. A
    /// finished game or a missing piece leaves the state unchanged.
    pub fn hard_drop(&mut self)
        requires
            old(self).wf(),
        ensures
            final(self).wf(),
            final(self).spec_width() == old(self).spec_width(),
            final(self).spec_height() == old(self).spec_height(),
            (old(self).over_s() || !old(self).has_piece()) ==> *final(self) == *old(self),
            (!old(self).over_s() && old(self).has_piece()) ==> exists|rest: int, k: int|
                #![trigger Self::locked_outcome(*old(self), rest, k, *final(self))]
                {
                    &&& old(self).y_s() <= rest <= old(self).spec_height() - 1
                    &&& collides_at(
                        old(self).board_s(),
                        old(self).spec_width(),
                        old(self).spec_height(),
                        old(self).piece_s(),
                        old(self).x_s(),
                        rest + 1,
                    )
                    &&& (rest == old(self).y_s() || !collides_at(
                        old(self).board_s(),
                        old(self).spec_width(),
                        old(self).spec_height(),
                        old(self).piece_s(),
                        old(self).x_s(),
                        rest,
                    ))
                    &&& 0 <= k < 7
                    &&& Self::locked_outcome(*old(self), rest, k, *final(self))
                },
    {
        loop
            invariant_except_break
                self.wf(),
                self.spec_width() == old(self).spec_width(),
                self.spec_height() == old(self).spec_height(),
                self.board_s() == old(self).board_s(),
                self.piece_s() == old(self).piece_s(),
                self.x_s() == old(self).x_s(),
                self.score_s() == old(self).score_s(),
                self.over_s() == old(self).over_s(),
                old(self).y_s() <= self.y_s(),
                self.y_s() == old(self).y_s() ==> *self == *old(self),
                self.y_s() != old(self).y_s() ==> (old(self).has_piece() && !old(self).over_s()
                    && !collides_at(
                    old(self).board_s(),
                    old(self).spec_width(),
                    old(self).spec_height(),
                    old(self).piece_s(),
                    old(self).x_s(),
                    self.y_s(),
                )),
            ensures
                self.wf(),
                self.spec_width() == old(self).spec_width(),
                self.spec_height() == old(self).spec_height(),
                (old(self).over_s() || !old(self).has_piece()) ==> *self == *old(self),
                (!old(self).over_s() && old(self).has_piece()) ==> exists|rest: int, k: int|
                    #![trigger Self::locked_outcome(*old(self), rest, k, *self)]
                    {
                        &&& old(self).y_s() <= rest <= old(self).spec_height() - 1
                        &&& collides_at(
                            old(self).board_s(),
                            old(self).spec_width(),
                            old(self).spec_height(),
                            old(self).piece_s(),
                            old(self).x_s(),
                            rest + 1,
                        )
                        &&& (rest == old(self).y_s() || !collides_at(
                            old(self).board_s(),
                            old(self).spec_width(),
                            old(self).spec_height(),
                            old(self).piece_s(),
                            old(self).x_s(),
                            rest,
                        ))
                        &&& 0 <= k < 7
                        &&& Self::locked_outcome(*old(self), rest, k, *self)
                    },
            decreases self.spec_height() - self.y_s(),
        {
            let ghost pre = *self;
            let falling = self.move_down();
            if !falling {
                proof {
                    if !pre.over_s() && pre.has_piece() {
                        let k = choose|k: int|
                            #![trigger Self::locked_outcome(pre, pre.y_s(), k, *self)]
                            0 <= k < 7 && Self::locked_outcome(pre, pre.y_s(), k, *self);
                        assert(Self::locked_outcome(*old(self), pre.y_s(), k, *self));
                    }
                }
                break;
            }
        }
    }

    /// Starts a fresh game: resets the board to all-empty, the score to 0,
    /// and the game-over flag to off, abandons the current piece, and spawns
    /// a random piece at the top. Safe to call at any time, including
    /// mid-game.
    pub fn new_game(&mut self)
        requires
            old(self).wf(),
        ensures
            final(self).wf(),
            final(self).spec_width() == old(self).spec_width(),
            final(self).spec_height() == old(self).spec_height(),
            final(self).board_s() == empty_rows(old(self).spec_height(), old(self).spec_width()),
            final(self).score_s() == 0,
            !final(self).over_s(),
            final(self).y_s() == 0,
            exists|k: int|
                #![trigger shape_s(k)]
                0 <= k < 7 && final(self).piece_s() == shape_s(k) && final(self).x_s() == old(
                    self,
                ).spec_width() / 2 - shape_s(k)[0].len() / 2,
    {
        let nb = make_empty_board(self.width, self.height);
        self.board = nb;
        self.game_over = false;
        self.score = 0;
        self.current_piece = Vec::new();
        self.current_x = 0;
        self.current_y = 0;
        proof {
            assert forall|i: int|
                0 <= i < self.spec_height() implies self.board_s()[i].len() == self.spec_width() by {
                assert(self.board_s()[i] == empty_rows(
                    old(self).spec_height(),
                    old(self).spec_width(),
                )[i]);
            }
            assert(rect(self.board_s(), self.spec_height(), self.spec_width()));
            assert(self.piece_s().len() == 0);
            assert(self.wf());
        }
        self.spawn_piece();
    }

    /// Row-major index arithmetic: a (row, column) pair inside the board maps
    /// to an index below `rows * w`.
    proof fn lemma_row_major(a: int, b: int, rows: int, w: int)
        by (nonlinear_arith)
        requires
            0 <= a < rows,
            0 <= b < w,
        ensures
            0 <= a * w + b,
            a * w + b < rows * w,
    {
    }

    /// The rendered snapshot: the settled board with the active piece's
    /// in-bounds occupied cells overlaid, flattened row-major, row 0 first.
    /// A read-only derived view; out-of-grid piece cells are skipped.
    #[verifier::loop_isolation(false)]
    pub fn get_board(&self) -> (cells: Vec<Tetromino>)
        requires
            self.wf(),
        ensures
            cells@.len() == self.spec_height() * self.spec_width(),
            forall|r: int, c: int|
                #![trigger cells@[r * self.spec_width() + c]]
                0 <= r < self.spec_height() && 0 <= c < self.spec_width() ==> cells@[r
                    * self.spec_width() + c] == overlay(
                    self.board_s(),
                    self.piece_s(),
                    self.x_s(),
                    self.y_s(),
                )[r][c],
    {
        let ghost w: int = self.spec_width();
        let ob = self.overlaid_board();
        let ghost ov = view_grid(ob);
        proof {
            assert(ob@.len() == ov.len());
            assert(ov.len() == self.board_s().len());
            assert forall|a: int| 0 <= a < ov.len() implies (#[trigger] ov[a]).len() == w by {
                assert(ov[a] == overlay(self.board_s(), self.piece_s(), self.x_s(), self.y_s())[a]);
                assert(self.board_s()[a].len() == w);
            }
        }
        let mut cells: Vec<Tetromino> = Vec::new();
        let mut r: usize = 0;
        while r < self.height
            invariant
                r <= self.height,
                ov == view_grid(ob),
                ob@.len() == self.spec_height(),
                cells@.len() == r as int * w,
                forall|a: int, b: int|
                    #![trigger cells@[a * w + b]]
                    0 <= a < r as int && 0 <= b < w ==> cells@[a * w + b] == ov[a][b],
            decreases self.height - r,
        {
            let orow = &ob[r];
            proof {
                assert(orow@ == ov[r as int]);
                assert(ov[r as int].len() == w);
            }
            let mut c: usize = 0;
            while c < self.width
                invariant
                    r < self.height,
                    c <= self.width,
                    orow@ == ov[r as int],
                    cells@.len() == r as int * w + c as int,
                    forall|a: int, b: int|
                        #![trigger cells@[a * w + b]]
                        0 <= a < r as int && 0 <= b < w ==> cells@[a * w + b] == ov[a][b],
                    forall|b: int|
                        #![trigger cells@[r as int * w + b]]
                        0 <= b < c as int ==> cells@[r as int * w + b] == ov[r as int][b],
                decreases self.width - c,
            {
                cells.push(orow[c]);
                c += 1;
                proof {
                    assert forall|a: int, b: int|
                        0 <= a < r as int && 0 <= b < w implies cells@[a * w + b] == ov[a][b] by {
                        Self::lemma_row_major(a, b, r as int, w);
                    }
                }
            }
            r += 1;
            proof {
                assert(r as int * w == (r as int - 1) * w + w) by (nonlinear_arith);
                assert forall|a: int, b: int|
                    0 <= a < r as int && 0 <= b < w implies cells@[a * w + b] == ov[a][b] by {
                    if a < r as int - 1 {
                        Self::lemma_row_major(a, b, r as int - 1, w);
                    } else {
                        assert(a * w + b == (r as int - 1) * w + b);
                    }
                }
            }
        }
        proof {
            assert(r as int * w == self.spec_height() * self.spec_width()) by (nonlinear_arith)
                requires
                    r as int == self.spec_height(),
                    w == self.spec_width(),
            ;
        }
        cells
    }
}

} // verus!
