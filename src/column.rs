use vstd::prelude::*;

use vstd::arithmetic::div_mod::lemma_fundamental_div_mod;

use crate::flatten::{flatten_all, flatten_distributes};
use crate::model::{
    Account, AccountView, Argument, GridSpec, Operation, OperationKind, Resource, account_views, immutables,
    leaves_of, mutables, non_signers, signers,
};
use crate::pack::{
    ceil_div, classification_is_exclusive, classify, lemma_rows_monotone, position_of,
    rows_needed, rows_needed_is_ceiling, signer_rows, spec_rows_needed, spec_signer_rows,
};

verus! {

/// Width of one box, in pixels.
pub const BOX_WIDTH: u64 = 240;

/// Height of one box, in pixels.
pub const BOX_HEIGHT: u64 = 60;

/// Height of the header that holds the program's name and version.
pub const HEADER_HEIGHT: u64 = 100;

/// Width of the vertical line between two columns.
pub const SEPARATOR_WIDTH: u64 = 2;

/// Gap between boxes, and between a box and a column's edge.
pub const SPACING: u64 = 8;

/// The largest canvas side, and so the largest coordinate, that a drawing
/// backend with signed 32-bit coordinates can take.
pub const CANVAS_LIMIT: u64 = 0x7fff_ffff;

/// The visual block that a box belongs to.
#[derive(Clone, Copy, PartialEq, Eq, Structural, Debug)]
pub enum Category {
    Title,
    Signer,
    Mutable,
    Immutable,
    Argument,
}

/// The order in which the categories are stacked in a column, top down.
pub fn category_order() -> (r: [Category; 5])
    ensures
        r@ == seq![
            Category::Title,
            Category::Signer,
            Category::Mutable,
            Category::Immutable,
            Category::Argument,
        ],
{
    let r = [
        Category::Title,
        Category::Signer,
        Category::Mutable,
        Category::Immutable,
        Category::Argument,
    ];
    assert(r@ =~= seq![
        Category::Title,
        Category::Signer,
        Category::Mutable,
        Category::Immutable,
        Category::Argument,
    ]);
    r
}

/// One box of the diagram with its two labels.
pub struct Placement {
    pub category: Category,
    pub left: u64,
    pub top: u64,
    pub right: u64,
    pub bottom: u64,
    pub primary: String,
    pub secondary: String,
}

pub ghost struct PlacementView {
    pub category: Category,
    pub left: int,
    pub top: int,
    pub right: int,
    pub bottom: int,
    pub primary: Seq<char>,
    pub secondary: Seq<char>,
}

impl View for Placement {
    type V = PlacementView;

    open spec fn view(&self) -> PlacementView {
        PlacementView {
            category: self.category,
            left: self.left as int,
            top: self.top as int,
            right: self.right as int,
            bottom: self.bottom as int,
            primary: self.primary@,
            secondary: self.secondary@,
        }
    }
}

pub open spec fn placement_views(v: Seq<Placement>) -> Seq<PlacementView> {
    v.map_values(|p: Placement| p@)
}

/// Pixel width of one column: `width` boxes with a gap on each side.
pub open spec fn column_width(width: nat) -> nat {
    (BOX_WIDTH * width + SPACING * (width + 1)) as nat
}

/// Distance between the left edges of two neighbouring columns.
pub open spec fn column_pitch(width: nat) -> nat {
    (column_width(width) + SEPARATOR_WIDTH) as nat
}

/// Top edge of the boxes in row `row` of a column.
pub open spec fn row_top(row: nat) -> int {
    HEADER_HEIGHT + 2 * SPACING + BOX_HEIGHT + SPACING * (1 + row) + BOX_HEIGHT * row
}

/// The box of the item at `index` of a category whose first row is
/// `first_row`, in column `col`.
pub open spec fn grid_box(
    category: Category,
    col: nat,
    first_row: nat,
    index: nat,
    width: nat,
    primary: Seq<char>,
    secondary: Seq<char>,
) -> PlacementView {
    let row = index / width;
    let slot = index % width;
    let left = column_pitch(width) * col + SPACING * (slot + 1) + BOX_WIDTH * slot;
    let top = row_top(first_row + row);
    PlacementView {
        category,
        left,
        top,
        right: left + BOX_WIDTH,
        bottom: top + BOX_HEIGHT,
        primary,
        secondary,
    }
}

pub open spec fn title_label(kind: OperationKind) -> Seq<char> {
    match kind {
        OperationKind::Instruction => "Instruction:"@,
        OperationKind::StateMethod => "State Method:"@,
    }
}

/// The title box of column `col`, centred over the column.
pub open spec fn title_box(op: Operation, col: nat, width: nat) -> PlacementView {
    let left = column_pitch(width) * col + column_width(width) / 2 - BOX_WIDTH / 2;
    PlacementView {
        category: Category::Title,
        left,
        top: (HEADER_HEIGHT + SPACING) as int,
        right: left + BOX_WIDTH,
        bottom: (HEADER_HEIGHT + SPACING + BOX_HEIGHT) as int,
        primary: title_label(op.kind),
        secondary: op.name@,
    }
}

pub open spec fn account_boxes(
    category: Category,
    label: Seq<char>,
    accounts: Seq<AccountView>,
    col: nat,
    first_row: nat,
    first_index: nat,
    width: nat,
) -> Seq<PlacementView> {
    Seq::new(
        accounts.len(),
        |j: int|
            grid_box(
                category,
                col,
                first_row,
                (first_index + j) as nat,
                width,
                label,
                accounts[j].name,
            ),
    )
}

/// The label under which an argument is shown: its type token and a colon.
pub open spec fn argument_label(a: Argument) -> Seq<char> {
    a.ty@ + ":"@
}

pub open spec fn argument_boxes(
    args: Seq<Argument>,
    col: nat,
    first_row: nat,
    width: nat,
) -> Seq<PlacementView> {
    Seq::new(
        args.len(),
        |j: int|
            grid_box(
                Category::Argument,
                col,
                first_row,
                j as nat,
                width,
                argument_label(args[j]),
                args[j].name@,
            ),
    )
}

pub open spec fn op_leaves(op: Operation) -> Seq<AccountView> {
    leaves_of(op.accounts@)
}

/// Rows of the signer block of an operation.
pub open spec fn signer_block_rows(op: Operation, width: nat) -> nat {
    spec_signer_rows(signers(op_leaves(op)).len(), width)
}

/// Rows of the accounts block: mutable then immutable non-signers.
pub open spec fn account_block_rows(op: Operation, width: nat) -> nat {
    spec_rows_needed(mutables(op_leaves(op)).len() + immutables(op_leaves(op)).len(), width)
}

/// Height of an operation's column, in rows (the title box not counted).
pub open spec fn column_rows(op: Operation, width: nat) -> nat {
    signer_block_rows(op, width) + account_block_rows(op, width) + spec_rows_needed(
        op.args@.len(),
        width,
    )
}

/// Every box of column `col`: the title, then signers, mutable accounts,
/// immutable accounts and arguments, each block under the one before.
pub open spec fn column_placements(op: Operation, col: nat, width: nat) -> Seq<PlacementView> {
    let leaves = op_leaves(op);
    let sr = signer_block_rows(op, width);
    let ar = account_block_rows(op, width);
    seq![title_box(op, col, width)] + account_boxes(
        Category::Signer,
        "Signer:"@,
        signers(leaves),
        col,
        0,
        0,
        width,
    ) + account_boxes(Category::Mutable, "Mutable Account:"@, mutables(leaves), col, sr, 0, width)
        + account_boxes(
        Category::Immutable,
        "Immutable Account:"@,
        immutables(leaves),
        col,
        sr,
        mutables(leaves).len(),
        width,
    ) + argument_boxes(op.args@, col, sr + ar, width)
}

/// The coordinates of column `col` and of its `rows` rows fit the canvas
/// limit.
pub open spec fn column_fits(col: nat, rows: nat, width: nat) -> bool {
    &&& width >= 1
    &&& column_pitch(width) * col + column_width(width) <= CANVAS_LIMIT
    &&& row_top(rows) <= CANVAS_LIMIT
}

/// Relies on `String::push_str`: appends `t` to the end of `s`.
#[verifier::external_body]
fn push_str(s: &mut String, t: &str)
    ensures
        final(s)@ == old(s)@ + t@,
{
    s.push_str(t)
}

/// `s` followed by `t`, as a new string.
pub fn joined(s: &str, t: &str) -> (r: String)
    ensures
        r@ == s@ + t@,
{
    let mut r = s.to_owned();
    push_str(&mut r, t);
    r
}

proof fn lemma_row_of_index(index: nat, count: nat, width: nat)
    requires
        width >= 1,
        index < count,
    ensures
        index / width < ceil_div(count, width),
        index % width < width,
{
    rows_needed_is_ceiling(count, width);
    lemma_fundamental_div_mod(index as int, width as int);
    let c = ceil_div(count, width);
    assert(index / width < c) by (nonlinear_arith)
        requires
            index == width * (index / width) + index % width,
            index % width >= 0,
            c * width >= count,
            index < count,
            width >= 1,
    ;
}

/// The box of one grid item, with its coordinates computed.
fn grid_box_exec(
    category: Category,
    col: usize,
    first_row: usize,
    index: usize,
    width: usize,
    primary: String,
    secondary: String,
) -> (r: Placement)
    requires
        column_fits(col as nat, (first_row + index / width + 1) as nat, width as nat),
    ensures
        r@ == grid_box(
            category,
            col as nat,
            first_row as nat,
            index as nat,
            width as nat,
            primary@,
            secondary@,
        ),
{
    let (row, slot) = position_of(index, width);
    let w = width as u64;
    let c = col as u64;
    let s = slot as u64;
    let rr = first_row as u64 + row as u64;
    let ghost pitch = column_pitch(w as nat);
    assert(slot < width) by {
        lemma_fundamental_div_mod(index as int, width as int);
    }
    assert(SPACING * (s + 1) + BOX_WIDTH * s + BOX_WIDTH <= BOX_WIDTH * w + SPACING * (w
        + 1)) by (nonlinear_arith)
        requires
            s < w,
    ;
    let p = BOX_WIDTH * w + SPACING * (w + 1) + SEPARATOR_WIDTH;
    let left = p * c + SPACING * (s + 1) + BOX_WIDTH * s;
    let top = HEADER_HEIGHT + 2 * SPACING + BOX_HEIGHT + SPACING * (1 + rr) + BOX_HEIGHT * rr;
    Placement {
        category,
        left,
        top,
        right: left + BOX_WIDTH,
        bottom: top + BOX_HEIGHT,
        primary,
        secondary,
    }
}


/// Appends the boxes of one account category to `out`.
fn push_account_boxes(
    out: &mut Vec<Placement>,
    category: Category,
    label: &str,
    accounts: &Vec<Account>,
    col: usize,
    first_row: usize,
    first_index: usize,
    width: usize,
)
    requires
        width >= 1,
        first_index + accounts@.len() <= usize::MAX,
        column_fits(
            col as nat,
            (first_row + ceil_div((first_index + accounts@.len()) as nat, width as nat)) as nat,
            width as nat,
        ),
    ensures
        placement_views(final(out)@) == placement_views(old(out)@) + account_boxes(
            category,
            label@,
            account_views(accounts@),
            col as nat,
            first_row as nat,
            first_index as nat,
            width as nat,
        ),
{
    let ghost base = placement_views(out@);
    let ghost boxes = account_boxes(
        category,
        label@,
        account_views(accounts@),
        col as nat,
        first_row as nat,
        first_index as nat,
        width as nat,
    );
    let mut j: usize = 0;
    while j < accounts.len()
        invariant
            j <= accounts@.len(),
            width >= 1,
            first_index + accounts@.len() <= usize::MAX,
            column_fits(
                col as nat,
                (first_row + ceil_div((first_index + accounts@.len()) as nat, width as nat)) as nat,
                width as nat,
            ),
            boxes == account_boxes(
                category,
                label@,
                account_views(accounts@),
                col as nat,
                first_row as nat,
                first_index as nat,
                width as nat,
            ),
            placement_views(out@) == base + boxes.subrange(0, j as int),
        decreases accounts@.len() - j,
    {
        proof {
            lemma_row_of_index(
                (first_index + j) as nat,
                (first_index + accounts@.len()) as nat,
                width as nat,
            );
        }
        let b = grid_box_exec(
            category,
            col,
            first_row,
            first_index + j,
            width,
            label.to_owned(),
            accounts[j].name.clone(),
        );
        let ghost before = out@;
        out.push(b);
        assert(placement_views(out@) =~= placement_views(before).push(b@));
        assert(boxes.subrange(0, j + 1) =~= boxes.subrange(0, j as int).push(boxes[j as int]));
        j = j + 1;
    }
    assert(boxes.subrange(0, accounts@.len() as int) =~= boxes);
}

/// Appends the boxes of an operation's arguments to `out`.
fn push_argument_boxes(
    out: &mut Vec<Placement>,
    args: &Vec<Argument>,
    col: usize,
    first_row: usize,
    width: usize,
)
    requires
        width >= 1,
        column_fits(
            col as nat,
            (first_row + ceil_div(args@.len(), width as nat)) as nat,
            width as nat,
        ),
    ensures
        placement_views(final(out)@) == placement_views(old(out)@) + argument_boxes(
            args@,
            col as nat,
            first_row as nat,
            width as nat,
        ),
{
    let ghost base = placement_views(out@);
    let ghost boxes = argument_boxes(args@, col as nat, first_row as nat, width as nat);
    let mut j: usize = 0;
    while j < args.len()
        invariant
            j <= args@.len(),
            width >= 1,
            column_fits(
                col as nat,
                (first_row + ceil_div(args@.len(), width as nat)) as nat,
                width as nat,
            ),
            boxes == argument_boxes(args@, col as nat, first_row as nat, width as nat),
            placement_views(out@) == base + boxes.subrange(0, j as int),
        decreases args@.len() - j,
    {
        proof {
            lemma_row_of_index(j as nat, args@.len(), width as nat);
        }
        let label = joined(args[j].ty.as_str(), ":");
        let b = grid_box_exec(
            Category::Argument,
            col,
            first_row,
            j,
            width,
            label,
            args[j].name.clone(),
        );
        let ghost before = out@;
        out.push(b);
        assert(placement_views(out@) =~= placement_views(before).push(b@));
        assert(boxes.subrange(0, j + 1) =~= boxes.subrange(0, j as int).push(boxes[j as int]));
        j = j + 1;
    }
    assert(boxes.subrange(0, args@.len() as int) =~= boxes);
}

/// The title box of column `col`.
fn title_box_exec(op: &Operation, col: usize, width: usize) -> (r: Placement)
    requires
        column_fits(col as nat, 0, width as nat),
    ensures
        r@ == title_box(*op, col as nat, width as nat),
{
    let w = width as u64;
    let c = col as u64;
    let ghost pitch = column_pitch(w as nat);
    assert((BOX_WIDTH * w + SPACING * (w + 1)) / 2 + BOX_WIDTH / 2 <= BOX_WIDTH * w + SPACING
        * (w + 1)) by (nonlinear_arith)
        requires
            w >= 1,
    ;
    let cw = BOX_WIDTH * w + SPACING * (w + 1);
    let p = cw + SEPARATOR_WIDTH;
    let left = p * c + cw / 2 - BOX_WIDTH / 2;
    let primary = match op.kind {
        OperationKind::Instruction => "Instruction:".to_owned(),
        OperationKind::StateMethod => "State Method:".to_owned(),
    };
    Placement {
        category: Category::Title,
        left,
        top: HEADER_HEIGHT + SPACING,
        right: left + BOX_WIDTH,
        bottom: HEADER_HEIGHT + SPACING + BOX_HEIGHT,
        primary,
        secondary: op.name.clone(),
    }
}

/// The signers, mutable and immutable accounts of an operation.
pub fn operation_categories(op: &Operation) -> (r: (Vec<Account>, Vec<Account>, Vec<Account>))
    ensures
        account_views(r.0@) == signers(op_leaves(*op)),
        account_views(r.1@) == mutables(op_leaves(*op)),
        account_views(r.2@) == immutables(op_leaves(*op)),
        r.0@.len() + r.1@.len() + r.2@.len() <= usize::MAX,
{
    let flat = flatten_all(&op.accounts);
    let n = flat.len();
    let r = classify(&flat);
    proof {
        classification_is_exclusive(account_views(flat@), arbitrary());
        assert(account_views(r.0@).len() == r.0@.len());
        assert(account_views(r.1@).len() == r.1@.len());
        assert(account_views(r.2@).len() == r.2@.len());
        assert(account_views(flat@).len() == n);
    }
    r
}

/// Height of an operation's column in rows: the signer block (at least one
/// row), the accounts block and the arguments block.
pub fn column_height(op: &Operation, grid: GridSpec) -> (r: u128)
    requires
        grid.width >= 1,
    ensures
        r == column_rows(*op, grid.width as nat),
        r < 0x4_0000_0000_0000_0000,
{
    let width = grid.width;
    let (s, m, im) = operation_categories(op);
    let sr = signer_rows(s.len(), width);
    let ar = rows_needed(m.len() + im.len(), width);
    let gr = rows_needed(op.args.len(), width);
    proof {
        lemma_rows_monotone(s@.len(), s@.len(), width as nat);
    }
    sr as u128 + ar as u128 + gr as u128
}

/// Every box of the column of `op` at position `col`, title first, then
/// signers, mutable accounts, immutable accounts and arguments.
pub fn plan_column(op: &Operation, grid: GridSpec, col: usize) -> (r: Vec<Placement>)
    requires
        column_fits(col as nat, column_rows(*op, grid.width as nat), grid.width as nat),
    ensures
        placement_views(r@) == column_placements(*op, col as nat, grid.width as nat),
{
    let width = grid.width;
    let (s, m, im) = operation_categories(op);
    let sr = signer_rows(s.len(), width);
    let ar = rows_needed(m.len() + im.len(), width);
    let ghost (ns, nm, ni) = (s@.len(), m@.len(), im@.len());
    proof {
        lemma_rows_monotone(ns, ns, width as nat);
        lemma_rows_monotone(nm, nm + ni, width as nat);
        lemma_rows_monotone(nm + ni, nm + ni, width as nat);
        assert(account_views(s@).len() == ns);
        assert(account_views(m@).len() == nm);
        assert(account_views(im@).len() == ni);
    }
    let mut out: Vec<Placement> = Vec::new();
    let t = title_box_exec(op, col, width);
    out.push(t);
    assert(placement_views(out@) =~= seq![title_box(*op, col as nat, width as nat)]);
    push_account_boxes(&mut out, Category::Signer, "Signer:", &s, col, 0, 0, width);
    push_account_boxes(&mut out, Category::Mutable, "Mutable Account:", &m, col, sr, 0, width);
    push_account_boxes(
        &mut out,
        Category::Immutable,
        "Immutable Account:",
        &im,
        col,
        sr,
        m.len(),
        width,
    );
    push_argument_boxes(&mut out, &op.args, col, sr + ar, width);
    out
}

proof fn lemma_category_lengths_add(a: Seq<AccountView>, b: Seq<AccountView>)
    ensures
        signers(a + b).len() == signers(a).len() + signers(b).len(),
        non_signers(a + b, true).len() == non_signers(a, true).len() + non_signers(b, true).len(),
        non_signers(a + b, false).len() == non_signers(a, false).len() + non_signers(
            b,
            false,
        ).len(),
    decreases b.len(),
{
    if b.len() == 0 {
        assert(a + b =~= a);
    } else {
        assert((a + b).drop_last() =~= a + b.drop_last());
        assert((a + b).last() == b.last());
        lemma_category_lengths_add(a, b.drop_last());
    }
}

/// Adding a resource anywhere in an operation's requirement list never
/// lowers its column.
pub proof fn adding_resource_never_lowers_column(
    op: Operation,
    grown: Operation,
    r: Resource,
    k: int,
    width: nat,
)
    requires
        width >= 1,
        0 <= k <= op.accounts@.len(),
        grown.accounts@ == op.accounts@.insert(k, r),
        grown.args@ == op.args@,
    ensures
        column_rows(grown, width) >= column_rows(op, width),
{
    let items = op.accounts@;
    let pre = items.subrange(0, k);
    let post = items.subrange(k, items.len() as int);
    assert(items =~= pre + post);
    assert(grown.accounts@ =~= pre + seq![r] + post);
    flatten_distributes(pre, post);
    flatten_distributes(pre, seq![r]);
    flatten_distributes(pre + seq![r], post);
    let lp = leaves_of(pre);
    let lr = leaves_of(seq![r]);
    let lq = leaves_of(post);
    lemma_category_lengths_add(lp, lq);
    lemma_category_lengths_add(lp, lr);
    lemma_category_lengths_add(lp + lr, lq);
    let old_s = signers(op_leaves(op)).len();
    let new_s = signers(op_leaves(grown)).len();
    let old_a = mutables(op_leaves(op)).len() + immutables(op_leaves(op)).len();
    let new_a = mutables(op_leaves(grown)).len() + immutables(op_leaves(grown)).len();
    lemma_rows_monotone(old_s, new_s, width);
    lemma_rows_monotone(old_a, new_a, width);
}

/// Adding an argument anywhere in an operation's argument list never lowers
/// its column.
pub proof fn adding_argument_never_lowers_column(
    op: Operation,
    grown: Operation,
    a: Argument,
    k: int,
    width: nat,
)
    requires
        width >= 1,
        0 <= k <= op.args@.len(),
        grown.accounts@ == op.accounts@,
        grown.args@ == op.args@.insert(k, a),
    ensures
        column_rows(grown, width) >= column_rows(op, width),
{
    lemma_rows_monotone(op.args@.len(), grown.args@.len(), width);
}

} // verus!
