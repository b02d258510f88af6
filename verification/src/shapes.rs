use vstd::prelude::*;

use crate::cell::Tetromino;
use crate::grid::rect;
use crate::grid::view_grid;

verus! {

/// How many canonical shapes there are.
pub const SHAPE_COUNT: usize = 7;

/// The seven canonical shapes, each given as its bounding grid: occupied
/// cells carry the shape's own tag, gaps inside the bounding rectangle are
/// `Empty`.
pub open spec fn shape_s(k: int) -> Seq<Seq<Tetromino>> {
    if k == 0 {
        seq![seq![Tetromino::I, Tetromino::I, Tetromino::I, Tetromino::I]]
    } else if k == 1 {
        seq![seq![Tetromino::O, Tetromino::O], seq![Tetromino::O, Tetromino::O]]
    } else if k == 2 {
        seq![
            seq![Tetromino::T, Tetromino::T, Tetromino::T],
            seq![Tetromino::Empty, Tetromino::T, Tetromino::Empty],
        ]
    } else if k == 3 {
        seq![
            seq![Tetromino::Empty, Tetromino::S, Tetromino::S],
            seq![Tetromino::S, Tetromino::S, Tetromino::Empty],
        ]
    } else if k == 4 {
        seq![
            seq![Tetromino::Z, Tetromino::Z, Tetromino::Empty],
            seq![Tetromino::Empty, Tetromino::Z, Tetromino::Z],
        ]
    } else if k == 5 {
        seq![
            seq![Tetromino::J, Tetromino::Empty, Tetromino::Empty],
            seq![Tetromino::J, Tetromino::J, Tetromino::J],
        ]
    } else {
        seq![
            seq![Tetromino::Empty, Tetromino::Empty, Tetromino::L],
            seq![Tetromino::L, Tetromino::L, Tetromino::L],
        ]
    }
}

/// Every canonical shape is a rectangle of at most 4 by 4 cells with at least
/// one row, one column, and one occupied cell.
pub proof fn lemma_shape_wf(k: int)
    requires
        0 <= k < 7,
    ensures
        1 <= shape_s(k).len() <= 4,
        1 <= shape_s(k)[0].len() <= 4,
        rect(shape_s(k), shape_s(k).len() as int, shape_s(k)[0].len() as int),
        exists|i: int, j: int|
            #![trigger shape_s(k)[i][j]]
            0 <= i < shape_s(k).len() && 0 <= j < shape_s(k)[i].len() && shape_s(k)[i][j]
                != Tetromino::Empty,
{
    if k == 3 {
        assert(shape_s(k)[0][1] != Tetromino::Empty);
    } else if k == 6 {
        assert(shape_s(k)[0][2] != Tetromino::Empty);
    } else {
        assert(shape_s(k)[0][0] != Tetromino::Empty);
    }
}

/// Builds the canonical shape of index `k` as a grid of cells.
pub fn make_shape(k: usize) -> (p: Vec<Vec<Tetromino>>)
    requires
        k < 7,
    ensures
        view_grid(p) == shape_s(k as int),
{
    if k == 0 {
        let p = vec![vec![Tetromino::I, Tetromino::I, Tetromino::I, Tetromino::I]];
        proof {
            assert(view_grid(p) =~~= shape_s(0));
        }
        p
    } else if k == 1 {
        let p = vec![
            vec![Tetromino::O, Tetromino::O],
            vec![Tetromino::O, Tetromino::O],
        ];
        proof {
            assert(view_grid(p) =~~= shape_s(1));
        }
        p
    } else if k == 2 {
        let p = vec![
            vec![Tetromino::T, Tetromino::T, Tetromino::T],
            vec![Tetromino::Empty, Tetromino::T, Tetromino::Empty],
        ];
        proof {
            assert(view_grid(p) =~~= shape_s(2));
        }
        p
    } else if k == 3 {
        let p = vec![
            vec![Tetromino::Empty, Tetromino::S, Tetromino::S],
            vec![Tetromino::S, Tetromino::S, Tetromino::Empty],
        ];
        proof {
            assert(view_grid(p) =~~= shape_s(3));
        }
        p
    } else if k == 4 {
        let p = vec![
            vec![Tetromino::Z, Tetromino::Z, Tetromino::Empty],
            vec![Tetromino::Empty, Tetromino::Z, Tetromino::Z],
        ];
        proof {
            assert(view_grid(p) =~~= shape_s(4));
        }
        p
    } else if k == 5 {
        let p = vec![
            vec![Tetromino::J, Tetromino::Empty, Tetromino::Empty],
            vec![Tetromino::J, Tetromino::J, Tetromino::J],
        ];
        proof {
            assert(view_grid(p) =~~= shape_s(5));
        }
        p
    } else {
        let p = vec![
            vec![Tetromino::Empty, Tetromino::Empty, Tetromino::L],
            vec![Tetromino::L, Tetromino::L, Tetromino::L],
        ];
        proof {
            assert(view_grid(p) =~~= shape_s(6));
        }
        p
    }
}

} // verus!
