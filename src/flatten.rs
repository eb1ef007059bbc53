use vstd::prelude::*;

use crate::model::{Account, Resource, account_views, leaf_count, leaves, leaves_of};

verus! {

/// A copy of an account with the same name and flags.
pub fn copy_account(a: &Account) -> (r: Account)
    ensures
        r@ == a@,
{
    Account { name: a.name.clone(), is_signer: a.is_signer, is_mut: a.is_mut }
}

proof fn lemma_prefix_step(items: Seq<Resource>, i: int)
    requires
        0 <= i < items.len(),
    ensures
        leaves_of(items.subrange(0, i + 1)) == leaves_of(items.subrange(0, i)) + leaves(
            items[i],
        ),
{
    let p = items.subrange(0, i + 1);
    assert(p.subrange(0, p.len() - 1) =~= items.subrange(0, i));
    assert(p[p.len() - 1] == items[i]);
    match items[i] {
        Resource::Leaf(a) => {
            assert(leaves_of(items.subrange(0, i)).push(a@) =~= leaves_of(items.subrange(0, i))
                + seq![a@]);
        },
        Resource::Group(_, _) => {},
    }
}

/// Appends to `out` the leaves of `items`, depth first and left to right.
pub fn flatten_into(items: &Vec<Resource>, out: &mut Vec<Account>)
    ensures
        account_views(final(out)@) == account_views(old(out)@) + leaves_of(items@),
    decreases items,
{
    let ghost start = account_views(out@);
    let mut i: usize = 0;
    while i < items.len()
        invariant
            i <= items.len(),
            account_views(out@) == start + leaves_of(items@.subrange(0, i as int)),
        decreases items.len() - i,
    {
        proof {
            lemma_prefix_step(items@, i as int);
        }
        let ghost before = out@;
        match &items[i] {
            Resource::Leaf(a) => {
                out.push(copy_account(a));
                assert(account_views(out@) =~= account_views(before).push(a@));
            },
            Resource::Group(_, children) => {
                assert(decreases_to!(items => children));
                flatten_into(children, out);
            },
        }
        assert(account_views(out@) =~= start + leaves_of(items@.subrange(0, i + 1)));
        i = i + 1;
    }
    assert(items@.subrange(0, items@.len() as int) =~= items@);
}

/// The leaves of one requirement, depth first and left to right; a group's
/// own name is dropped.
pub fn flatten(r: &Resource) -> (v: Vec<Account>)
    ensures
        account_views(v@) == leaves(*r),
{
    let mut v: Vec<Account> = Vec::new();
    match r {
        Resource::Leaf(a) => {
            v.push(copy_account(a));
            assert(account_views(v@) =~= seq![a@]);
        },
        Resource::Group(_, children) => {
            flatten_into(children, &mut v);
            assert(account_views(v@) =~= leaves(*r));
        },
    }
    v
}

/// The leaves of a whole list of requirements, in order.
pub fn flatten_all(items: &Vec<Resource>) -> (v: Vec<Account>)
    ensures
        account_views(v@) == leaves_of(items@),
{
    let mut v: Vec<Account> = Vec::new();
    flatten_into(items, &mut v);
    assert(account_views(v@) =~= leaves_of(items@));
    v
}

/// Flattening keeps every leaf exactly once: the flat list is as long as
/// the tree has leaves.
pub proof fn flatten_keeps_every_leaf(items: Seq<Resource>)
    ensures
        leaves_of(items).len() == leaf_count(items),
    decreases items,
{
    if items.len() > 0 {
        let last = items[items.len() - 1];
        flatten_keeps_every_leaf(items.subrange(0, items.len() - 1));
        match last {
            Resource::Leaf(_) => {},
            Resource::Group(_, children) => {
                assert(decreases_to!(items => children@));
                flatten_keeps_every_leaf(children@);
            },
        }
    }
}

/// Flattening a concatenation of requirement lists concatenates their
/// flattenings.
pub proof fn flatten_distributes(a: Seq<Resource>, b: Seq<Resource>)
    ensures
        leaves_of(a + b) == leaves_of(a) + leaves_of(b),
    decreases b.len(),
{
    if b.len() == 0 {
        assert(a + b =~= a);
        assert(leaves_of(a) + leaves_of(b) =~= leaves_of(a));
    } else {
        let ab = a + b;
        let b0 = b.subrange(0, b.len() - 1);
        assert(ab.subrange(0, ab.len() - 1) =~= a + b0);
        assert(ab[ab.len() - 1] == b[b.len() - 1]);
        flatten_distributes(a, b0);
        match b[b.len() - 1] {
            Resource::Leaf(x) => {
                assert((leaves_of(a) + leaves_of(b0)).push(x@) =~= leaves_of(a) + leaves_of(
                    b0,
                ).push(x@));
            },
            Resource::Group(_, c) => {
                assert(leaves_of(a) + leaves_of(b0) + leaves_of(c@) =~= leaves_of(a) + (
                leaves_of(b0) + leaves_of(c@)));
            },
        }
    }
}

} // verus!
