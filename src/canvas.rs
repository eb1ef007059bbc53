use vstd::prelude::*;

use crate::column::{
    column_height, column_pitch, column_rows, column_width, BOX_HEIGHT, BOX_WIDTH, CANVAS_LIMIT,
    HEADER_HEIGHT, SEPARATOR_WIDTH, SPACING,
};
use crate::model::{GridSpec, Operation};

verus! {

/// Pixel width of a canvas of `n` columns: the columns and a separator
/// between each two neighbours.
pub open spec fn canvas_width(n: nat, width: nat) -> nat {
    if n == 0 {
        0
    } else {
        (n * column_width(width) + (n - 1) * SEPARATOR_WIDTH) as nat
    }
}

/// The tallest column among `ops`, in rows.
pub open spec fn max_rows(ops: Seq<Operation>, width: nat) -> nat
    decreases ops.len(),
{
    if ops.len() == 0 {
        0
    } else {
        let head = max_rows(ops.drop_last(), width);
        let last = column_rows(ops.last(), width);
        if head >= last {
            head
        } else {
            last
        }
    }
}

/// Pixel height of the canvas: the header, the title row and the tallest
/// column, with margins; the header alone when there is no operation.
pub open spec fn canvas_height(ops: Seq<Operation>, width: nat) -> nat {
    if ops.len() == 0 {
        HEADER_HEIGHT as nat
    } else {
        ((BOX_HEIGHT + SPACING) * max_rows(ops, width) + HEADER_HEIGHT + 3 * SPACING + BOX_HEIGHT
            + 2 * SPACING) as nat
    }
}

/// Left edge of column `col`.
pub open spec fn column_origin(col: nat, width: nat) -> nat {
    column_pitch(width) * col
}

/// The canvas of `ops` fits the limit on both sides.
pub open spec fn canvas_fits(ops: Seq<Operation>, width: nat) -> bool {
    &&& width >= 1
    &&& canvas_width(ops.len(), width) <= CANVAS_LIMIT
    &&& canvas_height(ops, width) <= CANVAS_LIMIT
}

/// Size of the canvas and where each column starts.
pub struct CanvasPlan {
    pub width: u64,
    pub height: u64,
    pub rows: u64,
    pub origins: Vec<u64>,
}

/// The size of the canvas for `ops`, with the left edge of each column in
/// source order; `None` when the canvas would exceed the limit.
pub fn plan_canvas(ops: &Vec<Operation>, grid: GridSpec) -> (r: Option<CanvasPlan>)
    requires
        grid.width >= 1,
    ensures
        r is Some <==> canvas_fits(ops@, grid.width as nat),
        r matches Some(p) ==> {
            &&& p.width == canvas_width(ops@.len(), grid.width as nat)
            &&& p.height == canvas_height(ops@, grid.width as nat)
            &&& p.rows == max_rows(ops@, grid.width as nat)
            &&& p.origins@ == Seq::new(
                ops@.len(),
                |i: int| column_origin(i as nat, grid.width as nat) as u64,
            )
        },
{
    let width = grid.width;
    let ghost w = width as nat;
    let n = ops.len();
    let mut rows: u128 = 0;
    let mut i: usize = 0;
    while i < n
        invariant
            i <= n == ops@.len(),
            width >= 1,
            w == width as nat,
            grid.width == width,
            rows == max_rows(ops@.subrange(0, i as int), w),
            rows < 0x4_0000_0000_0000_0000,
        decreases n - i,
    {
        let h = column_height(&ops[i], grid);
        let ghost before = rows;
        if h > rows {
            rows = h;
        }
        proof {
            let next = ops@.subrange(0, i + 1);
            assert(next.drop_last() =~= ops@.subrange(0, i as int));
            assert(next.last() == ops@[i as int]);
            assert(max_rows(next, w) == if max_rows(next.drop_last(), w) >= column_rows(
                next.last(),
                w,
            ) {
                max_rows(next.drop_last(), w)
            } else {
                column_rows(next.last(), w)
            });
        }
        i = i + 1;
    }
    assert(ops@.subrange(0, n as int) =~= ops@);
    if n == 0 {
        return Some(CanvasPlan { width: 0, height: HEADER_HEIGHT, rows: 0, origins: Vec::new() });
    }
    if width as u128 > CANVAS_LIMIT as u128 {
        assert(canvas_width(n as nat, w) > CANVAS_LIMIT) by (nonlinear_arith)
            requires
                n >= 1,
                w > CANVAS_LIMIT,
                canvas_width(n as nat, w) == n * (BOX_WIDTH * w + SPACING * (w + 1)) + (n - 1)
                    * SEPARATOR_WIDTH,
        ;
        return None;
    }
    let wide = width as u128;
    let cw: u128 = BOX_WIDTH as u128 * wide + SPACING as u128 * (wide + 1);
    assert(cw == column_width(w));
    assert(n * cw < 0x1_0000_0000_0000_0000_0000_0000_0000) by (nonlinear_arith)
        requires
            n <= usize::MAX,
            usize::MAX < 0x1_0000_0000_0000_0000,
            cw < 0x100_0000_0000,
    ;
    assert((BOX_HEIGHT + SPACING) * rows < 0x1_0000_0000_0000_0000_0000) by (nonlinear_arith)
        requires
            rows < 0x4_0000_0000_0000_0000,
            BOX_HEIGHT + SPACING == 68,
    ;
    let total_width: u128 = n as u128 * cw + (n as u128 - 1) * SEPARATOR_WIDTH as u128;
    let total_height: u128 = (BOX_HEIGHT as u128 + SPACING as u128) * rows + HEADER_HEIGHT as u128
        + 3 * SPACING as u128 + BOX_HEIGHT as u128 + 2 * SPACING as u128;
    if total_width > CANVAS_LIMIT as u128 || total_height > CANVAS_LIMIT as u128 {
        return None;
    }
    let pitch: u64 = cw as u64 + SEPARATOR_WIDTH;
    assert(pitch * n - SEPARATOR_WIDTH == total_width) by (nonlinear_arith)
        requires
            pitch == cw + SEPARATOR_WIDTH,
            total_width == n * cw + (n - 1) * SEPARATOR_WIDTH,
    ;
    let mut origins: Vec<u64> = Vec::new();
    let mut c: usize = 0;
    while c < n
        invariant
            c <= n == ops@.len(),
            n >= 1,
            w == width as nat,
            pitch == column_pitch(w),
            pitch * n - SEPARATOR_WIDTH == total_width,
            total_width <= CANVAS_LIMIT,
            origins@ == Seq::new(c as nat, |j: int| column_origin(j as nat, w) as u64),
        decreases n - c,
    {
        assert(pitch * c <= pitch * n - SEPARATOR_WIDTH) by (nonlinear_arith)
            requires
                c < n,
                pitch >= SEPARATOR_WIDTH,
        ;
        origins.push(pitch * c as u64);
        assert(origins@ =~= Seq::new((c + 1) as nat, |j: int| column_origin(j as nat, w) as u64));
        c = c + 1;
    }
    Some(
        CanvasPlan {
            width: total_width as u64,
            height: total_height as u64,
            rows: rows as u64,
            origins,
        },
    )
}

/// The widths of the columns of `ops`, added up one by one.
pub open spec fn summed_column_widths(ops: Seq<Operation>, width: nat) -> nat
    decreases ops.len(),
{
    if ops.len() == 0 {
        0
    } else {
        summed_column_widths(ops.drop_last(), width) + column_width(width)
    }
}

proof fn lemma_summed_widths(ops: Seq<Operation>, width: nat)
    ensures
        summed_column_widths(ops, width) == ops.len() * column_width(width),
    decreases ops.len(),
{
    if ops.len() > 0 {
        lemma_summed_widths(ops.drop_last(), width);
        assert((ops.len() - 1) * column_width(width) + column_width(width) == ops.len()
            * column_width(width)) by (nonlinear_arith);
    }
}

/// The canvas is as wide as its columns together plus one separator between
/// each two neighbours; taking out any one operation narrows it by one
/// column and one separator, or by the column alone when it was the only
/// one.
pub proof fn canvas_width_is_additive(ops: Seq<Operation>, k: int, width: nat)
    requires
        0 <= k < ops.len(),
    ensures
        canvas_width(ops.len(), width) == summed_column_widths(ops, width) + (ops.len() - 1)
            * SEPARATOR_WIDTH,
        canvas_width(ops.len(), width) == canvas_width(ops.remove(k).len(), width)
            + column_width(width) + if ops.len() > 1 {
            SEPARATOR_WIDTH as nat
        } else {
            0nat
        },
{
    lemma_summed_widths(ops, width);
    let n = ops.len();
    let cw = column_width(width);
    assert(n * cw == (n - 1) * cw + cw) by (nonlinear_arith);
}

/// The canvas height follows the tallest column: no column has more rows
/// than `max_rows`, and some column has exactly that many.
pub proof fn canvas_height_follows_tallest_column(ops: Seq<Operation>, width: nat)
    ensures
        forall|i: int|
            0 <= i < ops.len() ==> column_rows(#[trigger] ops[i], width) <= max_rows(ops, width),
        ops.len() > 0 ==> exists|i: int|
            0 <= i < ops.len() && column_rows(#[trigger] ops[i], width) == max_rows(ops, width),
        canvas_height(ops, width) == if ops.len() == 0 {
            HEADER_HEIGHT as int
        } else {
            (BOX_HEIGHT + SPACING) * max_rows(ops, width) + HEADER_HEIGHT + 3 * SPACING + BOX_HEIGHT
                + 2 * SPACING
        },
    decreases ops.len(),
{
    if ops.len() > 0 {
        let p = ops.drop_last();
        canvas_height_follows_tallest_column(p, width);
        assert forall|i: int| 0 <= i < ops.len() implies column_rows(#[trigger] ops[i], width)
            <= max_rows(ops, width) by {
            if i < p.len() {
                assert(ops[i] == p[i]);
            }
        }
        if max_rows(p, width) >= column_rows(ops.last(), width) && p.len() > 0 {
            let j = choose|j: int| 0 <= j < p.len() && column_rows(#[trigger] p[j], width)
                == max_rows(p, width);
            assert(ops[j] == p[j]);
        } else {
            assert(column_rows(ops[ops.len() - 1], width) == max_rows(ops, width));
        }
    }
}

} // verus!
