use vstd::prelude::*;

verus! {

/// A leaf resource required by an operation.
pub struct Account {
    pub name: String,
    pub is_signer: bool,
    pub is_mut: bool,
}

/// What the layout reads of an account: its label and its two flags.
pub ghost struct AccountView {
    pub name: Seq<char>,
    pub is_signer: bool,
    pub is_mut: bool,
}

impl View for Account {
    type V = AccountView;

    open spec fn view(&self) -> AccountView {
        AccountView { name: self.name@, is_signer: self.is_signer, is_mut: self.is_mut }
    }
}

/// A resource requirement: a single account, or a named group of nested
/// requirements. Groups have no visual representation of their own.
pub enum Resource {
    Leaf(Account),
    Group(String, Vec<Resource>),
}

/// A scalar argument of an operation; `ty` is the display token of its type.
pub struct Argument {
    pub name: String,
    pub ty: String,
}

/// Which kind of callable an operation is; it only picks the title label.
#[derive(Clone, Copy, PartialEq, Eq, Structural, Debug)]
pub enum OperationKind {
    Instruction,
    StateMethod,
}

/// One callable operation: one column of the diagram.
pub struct Operation {
    pub kind: OperationKind,
    pub name: String,
    pub accounts: Vec<Resource>,
    pub args: Vec<Argument>,
}

/// The whole program description that a diagram is drawn from.
pub struct Program {
    pub name: String,
    pub version: String,
    pub operations: Vec<Operation>,
}

/// The tunable part of the grid: how many boxes stand side by side in a row
/// of each category.
#[derive(Clone, Copy, PartialEq, Eq, Structural, Debug)]
pub struct GridSpec {
    pub width: usize,
}

/// Why a diagram could not be laid out. A requirement tree owns its
/// children, so it is always finite and acyclic: no input can be malformed
/// in the way a shared, cyclic graph could be.
#[derive(Clone, Copy, PartialEq, Eq, Structural, Debug)]
pub enum LayoutError {
    /// The grid width is zero.
    InvalidConfiguration,
}

/// The accounts reached from `items`, depth first and left to right.
pub open spec fn leaves_of(items: Seq<Resource>) -> Seq<AccountView>
    decreases items,
{
    if items.len() == 0 {
        Seq::empty()
    } else {
        let last = items[items.len() - 1];
        let head = leaves_of(items.subrange(0, items.len() - 1));
        match last {
            Resource::Leaf(a) => head.push(a@),
            Resource::Group(_, children) => head + leaves_of(children@),
        }
    }
}

/// The accounts reached from one requirement.
pub open spec fn leaves(r: Resource) -> Seq<AccountView> {
    match r {
        Resource::Leaf(a) => seq![a@],
        Resource::Group(_, children) => leaves_of(children@),
    }
}

/// The number of leaves in a forest of requirements, counted without
/// building any sequence.
pub open spec fn leaf_count(items: Seq<Resource>) -> nat
    decreases items,
{
    if items.len() == 0 {
        0
    } else {
        let last = items[items.len() - 1];
        let head = leaf_count(items.subrange(0, items.len() - 1));
        match last {
            Resource::Leaf(_) => head + 1,
            Resource::Group(_, children) => head + leaf_count(children@),
        }
    }
}

/// The signer category: every leaf marked signer, in order.
pub open spec fn signers(s: Seq<AccountView>) -> Seq<AccountView>
    decreases s.len(),
{
    if s.len() == 0 {
        s
    } else {
        let head = signers(s.drop_last());
        if s.last().is_signer {
            head.push(s.last())
        } else {
            head
        }
    }
}

/// The non-signer leaves whose mutability is `is_mut`, in order.
pub open spec fn non_signers(s: Seq<AccountView>, is_mut: bool) -> Seq<AccountView>
    decreases s.len(),
{
    if s.len() == 0 {
        s
    } else {
        let head = non_signers(s.drop_last(), is_mut);
        if !s.last().is_signer && s.last().is_mut == is_mut {
            head.push(s.last())
        } else {
            head
        }
    }
}

/// The mutable non-signer category.
pub open spec fn mutables(s: Seq<AccountView>) -> Seq<AccountView> {
    non_signers(s, true)
}

/// The immutable non-signer category.
pub open spec fn immutables(s: Seq<AccountView>) -> Seq<AccountView> {
    non_signers(s, false)
}

/// How many times `a` occurs in `s`.
pub open spec fn occurrences(s: Seq<AccountView>, a: AccountView) -> nat
    decreases s.len(),
{
    if s.len() == 0 {
        0
    } else {
        occurrences(s.drop_last(), a) + if s.last() == a {
            1nat
        } else {
            0nat
        }
    }
}

/// The views of a vector of accounts.
pub open spec fn account_views(v: Seq<Account>) -> Seq<AccountView> {
    v.map_values(|a: Account| a@)
}

} // verus!
