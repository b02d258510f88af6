use vstd::prelude::*;

use crate::cell::Tetromino;

verus! {

/// The mathematical view of a grid of cells: the sequence of its rows' views.
pub open spec fn view_grid(g: Vec<Vec<Tetromino>>) -> Seq<Seq<Tetromino>> {
    g@.map_values(|r: Vec<Tetromino>| r@)
}

/// A grid with exactly `rows` rows, each exactly `cols` cells wide.
pub open spec fn rect(g: Seq<Seq<Tetromino>>, rows: int, cols: int) -> bool {
    &&& g.len() == rows
    &&& forall|i: int| #![trigger g[i]] 0 <= i < rows ==> g[i].len() == cols
}

/// A row is full when every one of its cells is occupied.
pub open spec fn row_full(r: Seq<Tetromino>) -> bool {
    forall|j: int| #![trigger r[j]] 0 <= j < r.len() ==> r[j] != Tetromino::Empty
}

/// A row of `w` empty cells.
pub open spec fn empty_row_s(w: int) -> Seq<Tetromino> {
    Seq::new(w as nat, |j: int| Tetromino::Empty)
}

/// `n` empty rows of width `w`.
pub open spec fn empty_rows(n: int, w: int) -> Seq<Seq<Tetromino>> {
    Seq::new(n as nat, |i: int| empty_row_s(w))
}

/// The rows that survive a clearing pass: the non-full rows, in their
/// original order.
pub open spec fn surviving_rows(rows: Seq<Seq<Tetromino>>) -> Seq<Seq<Tetromino>>
    decreases rows.len(),
{
    if rows.len() == 0 {
        Seq::empty()
    } else if row_full(rows.last()) {
        surviving_rows(rows.drop_last())
    } else {
        surviving_rows(rows.drop_last()).push(rows.last())
    }
}

/// How many rows a clearing pass removes.
pub open spec fn num_cleared(rows: Seq<Seq<Tetromino>>) -> int {
    rows.len() - surviving_rows(rows).len()
}

/// The board after a clearing pass: one fresh empty row on top for every
/// removed full row, then the surviving rows in order.
pub open spec fn cleared_board(rows: Seq<Seq<Tetromino>>, w: int) -> Seq<Seq<Tetromino>> {
    empty_rows(num_cleared(rows), w) + surviving_rows(rows)
}

/// The score value of clearing `n` rows in one locking step.
pub open spec fn line_score(n: int) -> int {
    if n == 1 {
        100
    } else if n == 2 {
        300
    } else if n == 3 {
        500
    } else if n == 4 {
        800
    } else {
        0
    }
}

/// A quarter-turn: the cell at local position (i, j) of a `rows` by `cols`
/// grid moves to position (j, rows - 1 - i) of the rotated `cols` by `rows`
/// grid.
pub open spec fn rotate_grid(g: Seq<Seq<Tetromino>>) -> Seq<Seq<Tetromino>> {
    Seq::new(g[0].len(), |j: int| Seq::new(g.len(), |k: int| g[g.len() - 1 - k][j]))
}

/// The occupied cell of the piece (placed with its top-left corner at board
/// position (y, x)) that lies on board position (r, c), if there is one.
pub open spec fn piece_covers(p: Seq<Seq<Tetromino>>, x: int, y: int, r: int, c: int) -> bool {
    &&& 0 <= r - y < p.len()
    &&& 0 <= c - x < p[r - y].len()
    &&& p[r - y][c - x] != Tetromino::Empty
}

/// The board with the piece's in-bounds occupied cells written on top.
pub open spec fn overlay(b: Seq<Seq<Tetromino>>, p: Seq<Seq<Tetromino>>, x: int, y: int) -> Seq<
    Seq<Tetromino>,
> {
    Seq::new(
        b.len(),
        |r: int|
            Seq::new(
                b[r].len(),
                |c: int|
                    if piece_covers(p, x, y, r, c) {
                        p[r - y][c - x]
                    } else {
                        b[r][c]
                    },
            ),
    )
}

/// The piece at offset (x, y) collides: some occupied piece cell either falls
/// outside the board or lands on an occupied board cell.
pub open spec fn collides_at(
    b: Seq<Seq<Tetromino>>,
    w: int,
    h: int,
    p: Seq<Seq<Tetromino>>,
    x: int,
    y: int,
) -> bool {
    exists|i: int, j: int|
        #![trigger p[i][j]]
        {
            &&& 0 <= i < p.len()
            &&& 0 <= j < p[i].len()
            &&& p[i][j] != Tetromino::Empty
            &&& (y + i < 0 || y + i >= h || x + j < 0 || x + j >= w || b[y + i][x + j]
                != Tetromino::Empty)
        }
}

/// An occupied piece cell over an occupied board cell forces a collision.
pub proof fn lemma_collision_filled_cell(
    b: Seq<Seq<Tetromino>>,
    w: int,
    h: int,
    p: Seq<Seq<Tetromino>>,
    x: int,
    y: int,
    i: int,
    j: int,
)
    requires
        0 <= i < p.len(),
        0 <= j < p[i].len(),
        p[i][j] != Tetromino::Empty,
        0 <= y + i < h,
        0 <= x + j < w,
        b[y + i][x + j] != Tetromino::Empty,
    ensures
        collides_at(b, w, h, p, x, y),
{
    assert(p[i][j] != Tetromino::Empty);
}

/// An occupied piece cell outside the board forces a collision.
pub proof fn lemma_collision_out_of_bounds(
    b: Seq<Seq<Tetromino>>,
    w: int,
    h: int,
    p: Seq<Seq<Tetromino>>,
    x: int,
    y: int,
    i: int,
    j: int,
)
    requires
        0 <= i < p.len(),
        0 <= j < p[i].len(),
        p[i][j] != Tetromino::Empty,
        y + i < 0 || y + i >= h || x + j < 0 || x + j >= w,
    ensures
        collides_at(b, w, h, p, x, y),
{
    assert(p[i][j] != Tetromino::Empty);
}

/// When every occupied piece cell lands, in bounds, on an empty board cell,
/// there is no collision.
pub proof fn lemma_no_collision(
    b: Seq<Seq<Tetromino>>,
    w: int,
    h: int,
    p: Seq<Seq<Tetromino>>,
    x: int,
    y: int,
)
    requires
        forall|i: int, j: int|
            #![trigger p[i][j]]
            (0 <= i < p.len() && 0 <= j < p[i].len() && p[i][j] != Tetromino::Empty) ==> (0 <= y + i
                < h && 0 <= x + j < w && b[y + i][x + j] == Tetromino::Empty),
    ensures
        !collides_at(b, w, h, p, x, y),
{
}

/// Four successive quarter-turns restore a non-empty rectangular grid.
pub proof fn lemma_rotate_four_identity(g: Seq<Seq<Tetromino>>, rows: int, cols: int)
    requires
        rect(g, rows, cols),
        rows >= 1,
        cols >= 1,
    ensures
        rotate_grid(rotate_grid(rotate_grid(rotate_grid(g)))) == g,
{
    let g1 = rotate_grid(g);
    let g2 = rotate_grid(g1);
    let g3 = rotate_grid(g2);
    let g4 = rotate_grid(g3);
    assert(rect(g1, cols, rows));
    assert(rect(g2, rows, cols));
    assert(rect(g3, cols, rows));
    assert(rect(g4, rows, cols));
    assert forall|a: int, b: int| 0 <= a < rows && 0 <= b < cols implies g4[a][b] == g[a][b] by {
        assert(g4[a][b] == g3[cols - 1 - b][a]);
        assert(g3[cols - 1 - b][a] == g2[rows - 1 - a][cols - 1 - b]);
        assert(g2[rows - 1 - a][cols - 1 - b] == g1[b][rows - 1 - a]);
        assert(g1[b][rows - 1 - a] == g[a][b]);
    }
    assert(g4 =~~= g);
}

/// The surviving rows of a board whose rows all have width `w` are at most as
/// many, keep that width, and none of them is full.
pub proof fn lemma_surviving_wf(rows: Seq<Seq<Tetromino>>, w: int)
    requires
        forall|i: int| #![trigger rows[i]] 0 <= i < rows.len() ==> rows[i].len() == w,
    ensures
        surviving_rows(rows).len() <= rows.len(),
        forall|i: int|
            #![trigger surviving_rows(rows)[i]]
            0 <= i < surviving_rows(rows).len() ==> surviving_rows(rows)[i].len() == w && !row_full(
                surviving_rows(rows)[i],
            ),
    decreases rows.len(),
{
    if rows.len() > 0 {
        lemma_surviving_wf(rows.drop_last(), w);
    }
}

/// A board without full rows survives a clearing pass unchanged.
pub proof fn lemma_surviving_no_full(rows: Seq<Seq<Tetromino>>)
    requires
        forall|i: int| #![trigger rows[i]] 0 <= i < rows.len() ==> !row_full(rows[i]),
    ensures
        surviving_rows(rows) == rows,
    decreases rows.len(),
{
    if rows.len() == 0 {
        assert(surviving_rows(rows) =~= rows);
    } else {
        lemma_surviving_no_full(rows.drop_last());
        assert(surviving_rows(rows) =~= rows);
    }
}

/// Extending the processed prefix by one row either drops it (full) or
/// appends it to the survivors (not full).
pub proof fn lemma_surviving_take_step(rows: Seq<Seq<Tetromino>>, s: int)
    requires
        0 <= s < rows.len(),
    ensures
        row_full(rows[s]) ==> surviving_rows(rows.take(s + 1)) == surviving_rows(rows.take(s)),
        !row_full(rows[s]) ==> surviving_rows(rows.take(s + 1)) == surviving_rows(
            rows.take(s),
        ).push(rows[s]),
{
    assert(rows.take(s + 1).drop_last() =~= rows.take(s));
    assert(rows.take(s + 1).last() == rows[s]);
}

/// When exactly the row at index `r` is full, a clearing pass yields one
/// fresh empty row on top, the rows above `r` shifted down by one, and the
/// rows below `r` unchanged in content and order.
pub proof fn lemma_clear_single_row(rows: Seq<Seq<Tetromino>>, w: int, r: int)
    requires
        w >= 1,
        forall|i: int| #![trigger rows[i]] 0 <= i < rows.len() ==> rows[i].len() == w,
        0 <= r < rows.len(),
        row_full(rows[r]),
        forall|i: int| #![trigger rows[i]] 0 <= i < rows.len() && i != r ==> !row_full(rows[i]),
    ensures
        cleared_board(rows, w) == seq![empty_row_s(w)] + rows.subrange(0, r) + rows.subrange(
            r + 1,
            rows.len() as int,
        ),
{
    lemma_surviving_one_full(rows, r);
    assert(num_cleared(rows) == 1);
    assert(empty_rows(1, w) =~= seq![empty_row_s(w)]);
    assert(cleared_board(rows, w) =~= seq![empty_row_s(w)] + rows.subrange(0, r) + rows.subrange(
        r + 1,
        rows.len() as int,
    ));
}

/// When exactly the row at index `r` is full, the survivors are the other
/// rows in order.
proof fn lemma_surviving_one_full(rows: Seq<Seq<Tetromino>>, r: int)
    requires
        0 <= r < rows.len(),
        row_full(rows[r]),
        forall|i: int| #![trigger rows[i]] 0 <= i < rows.len() && i != r ==> !row_full(rows[i]),
    ensures
        surviving_rows(rows) == rows.subrange(0, r) + rows.subrange(r + 1, rows.len() as int),
    decreases rows.len(),
{
    let last = rows.len() - 1;
    if r == last {
        lemma_surviving_no_full(rows.drop_last());
        assert(surviving_rows(rows) =~= rows.subrange(0, r) + rows.subrange(
            r + 1,
            rows.len() as int,
        ));
    } else {
        lemma_surviving_one_full(rows.drop_last(), r);
        assert(rows.drop_last().subrange(0, r) =~= rows.subrange(0, r));
        assert(surviving_rows(rows) =~= rows.subrange(0, r) + rows.subrange(
            r + 1,
            rows.len() as int,
        ));
    }
}

} // verus!
