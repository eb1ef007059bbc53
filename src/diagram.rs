use vstd::prelude::*;

use crate::canvas::{
    canvas_fits, canvas_height, canvas_height_follows_tallest_column, canvas_width, max_rows,
    plan_canvas,
};
use crate::column::{
    BOX_HEIGHT, BOX_WIDTH, CANVAS_LIMIT, Category, HEADER_HEIGHT, Placement, PlacementView,
    SEPARATOR_WIDTH, SPACING, column_pitch, column_placements, column_rows, column_width, joined,
    placement_views, plan_column,
};
use crate::model::{GridSpec, LayoutError, Operation, Program};

verus! {

/// Font size of the header lines.
pub const TITLE_FONT_SIZE: u64 = 24;

/// Font size of the labels in boxes.
pub const TEXT_FONT_SIZE: u64 = 20;

/// A point of the canvas, in pixels from its top-left corner.
#[derive(Clone, Copy, PartialEq, Eq, Structural, Debug)]
pub struct Point {
    pub x: u64,
    pub y: u64,
}

/// An opaque colour.
#[derive(Clone, Copy, PartialEq, Eq, Structural, Debug)]
pub struct Rgb {
    pub r: u8,
    pub g: u8,
    pub b: u8,
}

#[derive(Clone, Copy, PartialEq, Eq, Structural, Debug)]
pub enum FontWeight {
    Normal,
    Bold,
}

/// One thing for a drawing backend to draw. Text is black and centred on
/// its anchor, both ways.
pub enum DrawPrimitive {
    FilledRect { top_left: Point, bottom_right: Point, fill: Rgb },
    Text { content: String, anchor: Point, size: u64, weight: FontWeight },
}

pub ghost enum PrimitiveView {
    Rect { left: int, top: int, right: int, bottom: int, fill: Rgb },
    Label { content: Seq<char>, x: int, y: int, size: int, weight: FontWeight },
}

impl View for DrawPrimitive {
    type V = PrimitiveView;

    open spec fn view(&self) -> PrimitiveView {
        match self {
            DrawPrimitive::FilledRect { top_left, bottom_right, fill } => PrimitiveView::Rect {
                left: top_left.x as int,
                top: top_left.y as int,
                right: bottom_right.x as int,
                bottom: bottom_right.y as int,
                fill: *fill,
            },
            DrawPrimitive::Text { content, anchor, size, weight } => PrimitiveView::Label {
                content: content@,
                x: anchor.x as int,
                y: anchor.y as int,
                size: *size as int,
                weight: *weight,
            },
        }
    }
}

pub open spec fn primitive_views(v: Seq<DrawPrimitive>) -> Seq<PrimitiveView> {
    v.map_values(|p: DrawPrimitive| p@)
}

/// The diagram handed to a drawing backend.
pub struct Diagram {
    pub width: u64,
    pub height: u64,
    pub primitives: Vec<DrawPrimitive>,
}

/// The fill colour of each category's boxes.
pub open spec fn category_fill(c: Category) -> Rgb {
    match c {
        Category::Title => Rgb { r: 255, g: 200, b: 200 },
        Category::Signer => Rgb { r: 0, g: 255, b: 163 },
        Category::Mutable => Rgb { r: 255, g: 100, b: 100 },
        Category::Immutable => Rgb { r: 3, g: 225, b: 255 },
        Category::Argument => Rgb { r: 220, g: 31, b: 255 },
    }
}

pub fn fill_of(c: Category) -> (r: Rgb)
    ensures
        r == category_fill(c),
{
    match c {
        Category::Title => Rgb { r: 255, g: 200, b: 200 },
        Category::Signer => Rgb { r: 0, g: 255, b: 163 },
        Category::Mutable => Rgb { r: 255, g: 100, b: 100 },
        Category::Immutable => Rgb { r: 3, g: 225, b: 255 },
        Category::Argument => Rgb { r: 220, g: 31, b: 255 },
    }
}

/// A box is drawn as its rectangle, then its two labels one above the
/// other, centred on the box's width.
pub open spec fn box_primitives(p: PlacementView) -> Seq<PrimitiveView> {
    let x = p.left + BOX_WIDTH / 2;
    seq![
        PrimitiveView::Rect {
            left: p.left,
            top: p.top,
            right: p.right,
            bottom: p.bottom,
            fill: category_fill(p.category),
        },
        PrimitiveView::Label {
            content: p.primary,
            x,
            y: p.top + BOX_HEIGHT / 3,
            size: TEXT_FONT_SIZE as int,
            weight: FontWeight::Normal,
        },
        PrimitiveView::Label {
            content: p.secondary,
            x,
            y: p.top + 2 * BOX_HEIGHT / 3,
            size: TEXT_FONT_SIZE as int,
            weight: FontWeight::Normal,
        },
    ]
}

pub open spec fn boxes_primitives(ps: Seq<PlacementView>) -> Seq<PrimitiveView>
    decreases ps.len(),
{
    if ps.len() == 0 {
        Seq::empty()
    } else {
        boxes_primitives(ps.drop_last()) + box_primitives(ps.last())
    }
}

/// The boxes of every column of `ops`, column by column in source order.
pub open spec fn columns_primitives(ops: Seq<Operation>, width: nat) -> Seq<PrimitiveView>
    decreases ops.len(),
{
    if ops.len() == 0 {
        Seq::empty()
    } else {
        columns_primitives(ops.drop_last(), width) + boxes_primitives(
            column_placements(ops.last(), (ops.len() - 1) as nat, width),
        )
    }
}

/// The separator on the left of column `col`.
pub open spec fn separator(col: nat, width: nat, canvas_h: nat) -> PrimitiveView {
    PrimitiveView::Rect {
        left: column_pitch(width) * col - SEPARATOR_WIDTH,
        top: (HEADER_HEIGHT + SPACING) as int,
        right: (column_pitch(width) * col) as int,
        bottom: canvas_h - 3 * SPACING,
        fill: Rgb { r: 0, g: 0, b: 0 },
    }
}

/// One separator between each two neighbouring columns.
pub open spec fn separators(n: nat, width: nat, canvas_h: nat) -> Seq<PrimitiveView> {
    if n == 0 {
        Seq::empty()
    } else {
        Seq::new((n - 1) as nat, |t: int| separator((t + 1) as nat, width, canvas_h))
    }
}

/// The program's name and version, centred across the header.
pub open spec fn header(program: Program, canvas_w: nat) -> Seq<PrimitiveView> {
    seq![
        PrimitiveView::Label {
            content: "Anchor Program: "@ + program.name@,
            x: (canvas_w / 2) as int,
            y: (HEADER_HEIGHT / 4) as int,
            size: TITLE_FONT_SIZE as int,
            weight: FontWeight::Bold,
        },
        PrimitiveView::Label {
            content: "Version: "@ + program.version@,
            x: (canvas_w / 2) as int,
            y: (HEADER_HEIGHT / 2) as int,
            size: TITLE_FONT_SIZE as int,
            weight: FontWeight::Normal,
        },
    ]
}

/// Everything drawn for `program`, in drawing order: the header, the
/// separators, then each column's boxes.
pub open spec fn diagram_primitives(program: Program, width: nat) -> Seq<PrimitiveView> {
    let ops = program.operations@;
    let w = canvas_width(ops.len(), width);
    let h = canvas_height(ops, width);
    header(program, w) + separators(ops.len(), width, h) + columns_primitives(ops, width)
}

/// The primitives of one box.
fn push_box(out: &mut Vec<DrawPrimitive>, p: &Placement)
    requires
        p.right == p.left + BOX_WIDTH,
        p.bottom == p.top + BOX_HEIGHT,
    ensures
        primitive_views(final(out)@) == primitive_views(old(out)@) + box_primitives(p@),
{
    let ghost before = out@;
    let x = p.left + BOX_WIDTH / 2;
    out.push(
        DrawPrimitive::FilledRect {
            top_left: Point { x: p.left, y: p.top },
            bottom_right: Point { x: p.right, y: p.bottom },
            fill: fill_of(p.category),
        },
    );
    out.push(
        DrawPrimitive::Text {
            content: p.primary.clone(),
            anchor: Point { x, y: p.top + BOX_HEIGHT / 3 },
            size: TEXT_FONT_SIZE,
            weight: FontWeight::Normal,
        },
    );
    out.push(
        DrawPrimitive::Text {
            content: p.secondary.clone(),
            anchor: Point { x, y: p.top + 2 * BOX_HEIGHT / 3 },
            size: TEXT_FONT_SIZE,
            weight: FontWeight::Normal,
        },
    );
    assert(primitive_views(out@) =~= primitive_views(before) + box_primitives(p@));
}

/// The primitives of a sequence of boxes, in order.
fn push_boxes(out: &mut Vec<DrawPrimitive>, ps: &Vec<Placement>)
    requires
        forall|i: int|
            0 <= i < ps@.len() ==> (#[trigger] ps@[i]).right == ps@[i].left + BOX_WIDTH
                && ps@[i].bottom == ps@[i].top + BOX_HEIGHT,
    ensures
        primitive_views(final(out)@) == primitive_views(old(out)@) + boxes_primitives(
            placement_views(ps@),
        ),
{
    let ghost base = primitive_views(out@);
    let ghost views = placement_views(ps@);
    let mut i: usize = 0;
    while i < ps.len()
        invariant
            i <= ps@.len(),
            views == placement_views(ps@),
            forall|j: int|
                0 <= j < ps@.len() ==> (#[trigger] ps@[j]).right == ps@[j].left + BOX_WIDTH
                    && ps@[j].bottom == ps@[j].top + BOX_HEIGHT,
            primitive_views(out@) == base + boxes_primitives(views.subrange(0, i as int)),
        decreases ps@.len() - i,
    {
        push_box(out, &ps[i]);
        proof {
            let next = views.subrange(0, i + 1);
            assert(next.drop_last() =~= views.subrange(0, i as int));
            assert(next.last() == ps@[i as int]@);
        }
        assert(primitive_views(out@) =~= base + boxes_primitives(views.subrange(0, i + 1)));
        i = i + 1;
    }
    assert(views.subrange(0, ps@.len() as int) =~= views);
}

proof fn lemma_column_boxes_shaped(op: Operation, col: nat, width: nat)
    ensures
        forall|j: int|
            0 <= j < column_placements(op, col, width).len() ==> {
                let p = #[trigger] column_placements(op, col, width)[j];
                p.right == p.left + BOX_WIDTH && p.bottom == p.top + BOX_HEIGHT
            },
{
}

/// The canvas of `program` fits the limit, or the grid width is zero (which
/// `build` reports as an error).
pub fn fits(program: &Program, grid: GridSpec) -> (r: bool)
    ensures
        r == (grid.width == 0 || canvas_fits(program.operations@, grid.width as nat)),
{
    if grid.width == 0 {
        return true;
    }
    plan_canvas(&program.operations, grid).is_some()
}

/// Lays out the whole diagram of `program`: the canvas size and every
/// primitive to draw, in order. A zero grid width is refused before any
/// layout is done.
pub fn build(program: &Program, grid: GridSpec) -> (r: Result<Diagram, LayoutError>)
    requires
        grid.width == 0 || canvas_fits(program.operations@, grid.width as nat),
    ensures
        grid.width == 0 <==> r is Err,
        r is Err ==> r == Err::<Diagram, LayoutError>(LayoutError::InvalidConfiguration),
        r matches Ok(d) ==> {
            &&& d.width == canvas_width(program.operations@.len(), grid.width as nat)
            &&& d.height == canvas_height(program.operations@, grid.width as nat)
            &&& primitive_views(d.primitives@) == diagram_primitives(
                *program,
                grid.width as nat,
            )
        },
{
    if grid.width == 0 {
        return Err(LayoutError::InvalidConfiguration);
    }
    let width = grid.width;
    let ghost w = width as nat;
    let ops = &program.operations;
    let ghost sops = ops@;
    let n = ops.len();
    let plan = match plan_canvas(ops, grid) {
        Some(p) => p,
        None => {
            return Err(LayoutError::InvalidConfiguration);
        },
    };
    let mut out: Vec<DrawPrimitive> = Vec::new();
    out.push(
        DrawPrimitive::Text {
            content: joined("Anchor Program: ", program.name.as_str()),
            anchor: Point { x: plan.width / 2, y: HEADER_HEIGHT / 4 },
            size: TITLE_FONT_SIZE,
            weight: FontWeight::Bold,
        },
    );
    out.push(
        DrawPrimitive::Text {
            content: joined("Version: ", program.version.as_str()),
            anchor: Point { x: plan.width / 2, y: HEADER_HEIGHT / 2 },
            size: TITLE_FONT_SIZE,
            weight: FontWeight::Normal,
        },
    );
    let ghost head = header(*program, plan.width as nat);
    assert(primitive_views(out@) =~= head);
    let ghost seps = separators(n as nat, w, plan.height as nat);
    if n == 0 {
        assert(primitive_views(out@) =~= diagram_primitives(*program, w));
        return Ok(Diagram { width: plan.width, height: plan.height, primitives: out });
    }
    assert(column_width(w) <= CANVAS_LIMIT && w <= CANVAS_LIMIT) by (nonlinear_arith)
        requires
            plan.width == n * column_width(w) + (n - 1) * SEPARATOR_WIDTH,
            column_width(w) == BOX_WIDTH * w + SPACING * (w + 1),
            n >= 1,
            plan.width <= CANVAS_LIMIT,
    ;
    let cw = width as u64 * BOX_WIDTH + SPACING * (width as u64 + 1);
    let pitch = cw + SEPARATOR_WIDTH;
    proof {
        canvas_height_follows_tallest_column(sops, w);
        assert(plan.width == n * pitch - SEPARATOR_WIDTH) by (nonlinear_arith)
            requires
                pitch == cw + SEPARATOR_WIDTH,
                plan.width == n * cw + (n - 1) * SEPARATOR_WIDTH,
                n >= 1,
        ;
    }
    let mut t: usize = 1;
    while t < n
        invariant
            1 <= t <= n,
            n == sops.len(),
            plan.width == n * pitch - SEPARATOR_WIDTH,
            plan.width <= CANVAS_LIMIT,
            plan.height == canvas_height(sops, w),
            pitch == column_pitch(w),
            w == width as nat,
            seps == separators(n as nat, w, plan.height as nat),
            primitive_views(out@) == head + seps.subrange(0, t - 1),
        decreases n - t,
    {
        assert(pitch * t <= pitch * n - SEPARATOR_WIDTH && pitch * t >= SEPARATOR_WIDTH)
            by (nonlinear_arith)
            requires
                1 <= t < n,
                pitch >= SEPARATOR_WIDTH,
        ;
        let x = pitch * t as u64;
        let ghost before = out@;
        out.push(
            DrawPrimitive::FilledRect {
                top_left: Point { x: x - SEPARATOR_WIDTH, y: HEADER_HEIGHT + SPACING },
                bottom_right: Point { x, y: plan.height - 3 * SPACING },
                fill: Rgb { r: 0, g: 0, b: 0 },
            },
        );
        assert(seps.subrange(0, t as int) =~= seps.subrange(0, t - 1).push(seps[t - 1]));
        assert(primitive_views(out@) =~= primitive_views(before).push(seps[t - 1]));
        t = t + 1;
    }
    assert(seps.subrange(0, n - 1) =~= seps);
    let mut i: usize = 0;
    while i < n
        invariant
            i <= n == sops.len(),
            sops == ops@,
            width >= 1,
            w == width as nat,
            grid.width == width,
            pitch == column_pitch(w),
            plan.width == n * pitch - SEPARATOR_WIDTH,
            plan.width <= CANVAS_LIMIT,
            plan.height == canvas_height(sops, w),
            plan.height <= CANVAS_LIMIT,
            forall|j: int| 0 <= j < sops.len() ==> column_rows(#[trigger] sops[j], w) <= max_rows(sops, w),
            primitive_views(out@) == head + seps + columns_primitives(sops.subrange(0, i as int), w),
        decreases n - i,
    {
        assert(pitch * i + column_width(w) <= pitch * n - SEPARATOR_WIDTH) by (nonlinear_arith)
            requires
                i < n,
                pitch == column_width(w) + SEPARATOR_WIDTH,
        ;
        assert(column_rows(sops[i as int], w) <= max_rows(sops, w));
        let ps = plan_column(&ops[i], grid, i);
        proof {
            lemma_column_boxes_shaped(sops[i as int], i as nat, w);
            assert forall|j: int| 0 <= j < ps@.len() implies (#[trigger] ps@[j]).right == ps@[j].left + BOX_WIDTH
                && ps@[j].bottom == ps@[j].top + BOX_HEIGHT by {
                assert(ps@[j]@ == placement_views(ps@)[j]);
            }
        }
        push_boxes(&mut out, &ps);
        proof {
            let next = sops.subrange(0, i + 1);
            assert(next.drop_last() =~= sops.subrange(0, i as int));
            assert(next.last() == sops[i as int]);
            assert(primitive_views(out@) =~= head + seps + columns_primitives(next, w));
        }
        i = i + 1;
    }
    assert(sops.subrange(0, n as int) =~= sops);
    Ok(Diagram { width: plan.width, height: plan.height, primitives: out })
}

} // verus!
