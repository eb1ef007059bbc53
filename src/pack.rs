use vstd::prelude::*;

use vstd::arithmetic::div_mod::lemma_fundamental_div_mod;

use crate::flatten::copy_account;
use crate::model::{
    Account, AccountView, account_views, immutables, mutables, non_signers, occurrences,
    signers,
};

verus! {

/// `n / w` rounded up.
pub open spec fn ceil_div(n: nat, w: nat) -> nat
    recommends
        w >= 1,
{
    if n % w == 0 {
        n / w
    } else {
        n / w + 1
    }
}

/// Rows that a category of `count` items takes in a grid `width` wide.
pub open spec fn spec_rows_needed(count: nat, width: nat) -> nat {
    ceil_div(count, width)
}

/// Rows of the signer category: at least one, even with no signer.
pub open spec fn spec_signer_rows(count: nat, width: nat) -> nat {
    if ceil_div(count, width) == 0 {
        1
    } else {
        ceil_div(count, width)
    }
}

/// Rows needed by `count` items, `width` to a row.
pub fn rows_needed(count: usize, width: usize) -> (r: usize)
    requires
        width >= 1,
    ensures
        r == spec_rows_needed(count as nat, width as nat),
{
    if count % width == 0 {
        count / width
    } else {
        proof {
            lemma_fundamental_div_mod(count as int, width as int);
        }
        assert(count / width < count) by (nonlinear_arith)
            requires
                width >= 1,
                count % width != 0,
                count == width * (count / width) + count % width,
                count % width < width,
        ;
        count / width + 1
    }
}

/// Rows of the signer category, which always reserves one.
pub fn signer_rows(count: usize, width: usize) -> (r: usize)
    requires
        width >= 1,
    ensures
        r == spec_signer_rows(count as nat, width as nat),
{
    let r = rows_needed(count, width);
    if r == 0 {
        1
    } else {
        r
    }
}

/// Row and place in the row of the item at `index`: rows fill left to
/// right, top to bottom.
pub fn position_of(index: usize, width: usize) -> (r: (usize, usize))
    requires
        width >= 1,
    ensures
        r.0 == index / width,
        r.1 == index % width,
{
    (index / width, index % width)
}

/// The three account categories of a flat list, each in its original
/// order: signers; then mutable and immutable non-signers. A signer goes to
/// the signer category only, whatever its mutability.
pub fn classify(flat: &Vec<Account>) -> (r: (Vec<Account>, Vec<Account>, Vec<Account>))
    ensures
        account_views(r.0@) == signers(account_views(flat@)),
        account_views(r.1@) == mutables(account_views(flat@)),
        account_views(r.2@) == immutables(account_views(flat@)),
{
    let ghost all = account_views(flat@);
    let mut s: Vec<Account> = Vec::new();
    let mut m: Vec<Account> = Vec::new();
    let mut im: Vec<Account> = Vec::new();
    let mut i: usize = 0;
    while i < flat.len()
        invariant
            i <= flat.len(),
            all == account_views(flat@),
            account_views(s@) == signers(all.subrange(0, i as int)),
            account_views(m@) == non_signers(all.subrange(0, i as int), true),
            account_views(im@) == non_signers(all.subrange(0, i as int), false),
        decreases flat.len() - i,
    {
        let ghost pre = all.subrange(0, i as int);
        let ghost next = all.subrange(0, i + 1);
        assert(next.drop_last() =~= pre);
        assert(next.last() == flat@[i as int]@);
        let ghost (s0, m0, im0) = (s@, m@, im@);
        let a = &flat[i];
        if a.is_signer {
            s.push(copy_account(a));
            assert(account_views(s@) =~= account_views(s0).push(a@));
        } else if a.is_mut {
            m.push(copy_account(a));
            assert(account_views(m@) =~= account_views(m0).push(a@));
        } else {
            im.push(copy_account(a));
            assert(account_views(im@) =~= account_views(im0).push(a@));
        }
        i = i + 1;
    }
    assert(all.subrange(0, flat.len() as int) =~= all);
    (s, m, im)
}

/// `rows_needed` is the ceiling of `count / width`: the fewest rows of
/// `width` that hold `count` items.
pub proof fn rows_needed_is_ceiling(count: nat, width: nat)
    requires
        width >= 1,
    ensures
        spec_rows_needed(count, width) * width >= count,
        spec_rows_needed(count, width) == 0 || (spec_rows_needed(count, width) - 1) * width
            < count,
        count > 0 ==> spec_signer_rows(count, width) == spec_rows_needed(count, width),
        spec_signer_rows(0, width) == 1,
{
    let q = count / width;
    let r = count % width;
    lemma_fundamental_div_mod(count as int, width as int);
    assert(count == q * width + r && 0 <= r < width);
    if r != 0 {
        assert((q + 1) * width >= count && q * width < count) by (nonlinear_arith)
            requires
                count == q * width + r,
                0 < r < width,
        ;
    } else {
        assert(q == 0 || (q - 1) * width < count) by (nonlinear_arith)
            requires
                count == q * width,
                width >= 1,
        ;
    }
    if count > 0 {
        assert(spec_rows_needed(count, width) > 0) by (nonlinear_arith)
            requires
                count == q * width + r,
                count > 0,
                spec_rows_needed(count, width) == if r == 0 {
                    q
                } else {
                    q + 1
                },
        ;
    }
    assert(0nat / width == 0 && 0nat % width == 0) by (nonlinear_arith)
        requires
            width >= 1,
    ;
}

/// Each leaf lands in exactly one category; a leaf marked signer appears in
/// the signer category as often as in the flat list, and never among the
/// mutable or immutable accounts.
pub proof fn classification_is_exclusive(s: Seq<AccountView>, a: AccountView)
    ensures
        signers(s).len() + mutables(s).len() + immutables(s).len() == s.len(),
        a.is_signer ==> occurrences(signers(s), a) == occurrences(s, a),
        a.is_signer ==> occurrences(mutables(s), a) == 0,
        a.is_signer ==> occurrences(immutables(s), a) == 0,
        forall|i: int| 0 <= i < signers(s).len() ==> (#[trigger] signers(s)[i]).is_signer,
        forall|i: int|
            0 <= i < mutables(s).len() ==> !(#[trigger] mutables(s)[i]).is_signer
                && mutables(s)[i].is_mut,
        forall|i: int|
            0 <= i < immutables(s).len() ==> !(#[trigger] immutables(s)[i]).is_signer
                && !immutables(s)[i].is_mut,
    decreases s.len(),
{
    if s.len() > 0 {
        let p = s.drop_last();
        classification_is_exclusive(p, a);
        let x = s.last();
        if x.is_signer {
            assert(signers(s) == signers(p).push(x));
            assert(signers(s).drop_last() =~= signers(p));
        } else if x.is_mut {
            assert(mutables(s) == mutables(p).push(x));
            assert(mutables(s).drop_last() =~= mutables(p));
        } else {
            assert(immutables(s) == immutables(p).push(x));
            assert(immutables(s).drop_last() =~= immutables(p));
        }
        assert forall|i: int| 0 <= i < signers(s).len() implies (
        #[trigger] signers(s)[i]).is_signer by {
            if i < signers(p).len() {
                assert(signers(s)[i] == signers(p)[i]);
            }
        }
        assert forall|i: int| 0 <= i < mutables(s).len() implies !(
        #[trigger] mutables(s)[i]).is_signer && mutables(s)[i].is_mut by {
            if i < mutables(p).len() {
                assert(mutables(s)[i] == mutables(p)[i]);
            }
        }
        assert forall|i: int| 0 <= i < immutables(s).len() implies !(
        #[trigger] immutables(s)[i]).is_signer && !immutables(s)[i].is_mut by {
            if i < immutables(p).len() {
                assert(immutables(s)[i] == immutables(p)[i]);
            }
        }
    }
}

/// More items never need fewer rows, and never more rows than items.
pub proof fn lemma_rows_monotone(a: nat, b: nat, width: nat)
    requires
        width >= 1,
        a <= b,
    ensures
        ceil_div(a, width) <= ceil_div(b, width),
        ceil_div(b, width) <= b,
        spec_signer_rows(b, width) <= b + 1,
{
    rows_needed_is_ceiling(a, width);
    rows_needed_is_ceiling(b, width);
    let ca = ceil_div(a, width);
    let cb = ceil_div(b, width);
    if cb < ca {
        assert(cb * width <= (ca - 1) * width) by (nonlinear_arith)
            requires
                cb <= ca - 1,
                width >= 1,
        ;
    }
    if cb > b {
        assert((cb - 1) * width >= b) by (nonlinear_arith)
            requires
                cb - 1 >= b,
                width >= 1,
        ;
    }
}

} // verus!
