//! Ordering packages by their display names.

use vstd::prelude::*;

use crate::scanner::{package_views, Package, PackageModel};
use crate::text::{
    lemma_lex_irreflexive, lemma_lex_total, lemma_lex_trans, lex_lt, string_less,
};

verus! {

/// Each package's display name is no greater than the next ones'.
pub open spec fn sorted_by_display(s: Seq<PackageModel>) -> bool {
    forall|i: int, j: int| 0 <= i < j < s.len() ==> !lex_lt(s[j].display_name, s[i].display_name)
}

pub open spec fn with_display(k: Seq<char>) -> spec_fn(PackageModel) -> bool {
    |p: PackageModel| p.display_name == k
}

/// `r` is `s` sorted by display name, packages with the same display name
/// keeping their order (what a stable sort gives).
pub open spec fn is_display_sort_of(r: Seq<PackageModel>, s: Seq<PackageModel>) -> bool {
    &&& sorted_by_display(r)
    &&& forall|k: Seq<char>| #[trigger] r.filter(with_display(k)) == s.filter(with_display(k))
}

/// A filter that no element passes gives nothing.
pub proof fn lemma_filter_none<A>(s: Seq<A>, f: spec_fn(A) -> bool)
    requires
        forall|i: int| 0 <= i < s.len() ==> !f(#[trigger] s[i]),
    ensures
        s.filter(f) == Seq::<A>::empty(),
    decreases s.len(),
{
    reveal(Seq::filter);
    if s.len() > 0 {
        lemma_filter_none(s.drop_last(), f);
    }
}

/// Inserts `x` after every package whose display name is no greater than
/// its own.
fn insert_by_display(r: &mut Vec<Package>, x: Package, Ghost(s): Ghost<Seq<PackageModel>>)
    requires
        is_display_sort_of(package_views(old(r)@), s),
    ensures
        is_display_sort_of(package_views(final(r)@), s.push(x@)),
{
    let ghost rv = package_views(r@);
    let mut pos: usize = 0;
    while pos < r.len() && !string_less(&x.display_name, &r[pos].display_name)
        invariant
            pos <= r@.len(),
            rv == package_views(r@),
            forall|j: int| 0 <= j < pos ==> !lex_lt(x@.display_name, #[trigger] rv[j].display_name),
        decreases r@.len() - pos,
    {
        pos = pos + 1;
    }
    proof {
        // everything from `pos` on comes strictly after `x`
        assert forall|j: int| pos <= j < rv.len() implies lex_lt(
            x@.display_name,
            #[trigger] rv[j].display_name,
        ) by {
            if j > pos {
                lemma_lex_total(rv[pos as int].display_name, rv[j].display_name);
                if rv[pos as int].display_name != rv[j].display_name {
                    assert(!lex_lt(rv[j].display_name, rv[pos as int].display_name));
                    lemma_lex_trans(x@.display_name, rv[pos as int].display_name, rv[j].display_name);
                }
            }
        }
    }
    let ghost xv = x@;
    r.insert(pos, x);
    let ghost t = package_views(r@);
    let ghost front = rv.take(pos as int);
    let ghost back = rv.skip(pos as int);
    assert(rv =~= front + back);
    assert(t =~= front + seq![xv] + back);
    assert forall|i: int, j: int| 0 <= i < j < t.len() implies !lex_lt(
        t[j].display_name,
        t[i].display_name,
    ) by {
        if j < pos {
            assert(t[i] == rv[i] && t[j] == rv[j]);
        } else if j == pos {
            assert(t[i] == rv[i]);
        } else if i == pos {
            assert(t[j] == rv[j - 1]);
            lemma_lex_total(xv.display_name, rv[j - 1].display_name);
            lemma_lex_irreflexive(xv.display_name);
            if lex_lt(rv[j - 1].display_name, xv.display_name) {
                lemma_lex_trans(xv.display_name, rv[j - 1].display_name, xv.display_name);
            }
        } else if i < pos {
            assert(t[i] == rv[i] && t[j] == rv[j - 1]);
            if lex_lt(rv[j - 1].display_name, rv[i].display_name) {
                lemma_lex_total(xv.display_name, rv[i].display_name);
                if xv.display_name == rv[i].display_name {
                    lemma_lex_trans(xv.display_name, rv[j - 1].display_name, xv.display_name);
                    lemma_lex_irreflexive(xv.display_name);
                } else if lex_lt(xv.display_name, rv[i].display_name) {
                } else {
                    lemma_lex_trans(rv[i].display_name, xv.display_name, rv[j - 1].display_name);
                    lemma_lex_trans(rv[i].display_name, rv[j - 1].display_name, rv[i].display_name);
                    lemma_lex_irreflexive(rv[i].display_name);
                }
            }
        } else {
            assert(t[i] == rv[i - 1] && t[j] == rv[j - 1]);
        }
    }
    assert forall|k: Seq<char>| #[trigger] t.filter(with_display(k)) == s.push(xv).filter(
        with_display(k),
    ) by {
        let f = with_display(k);
        Seq::filter_distributes_over_add(front + seq![xv], back, f);
        Seq::filter_distributes_over_add(front, seq![xv], f);
        Seq::filter_distributes_over_add(front, back, f);
        s.lemma_filter_push(xv, f);
        assert(rv.filter(f) == s.filter(f));
        assert(seq![xv] =~= Seq::<PackageModel>::empty().push(xv));
        Seq::<PackageModel>::empty().lemma_filter_push(xv, f);
        assert(Seq::<PackageModel>::empty().filter(f) =~= Seq::<PackageModel>::empty()) by {
            reveal(Seq::filter);
        }
        if k == xv.display_name {
            assert forall|i: int| 0 <= i < back.len() implies !f(#[trigger] back[i]) by {
                assert(back[i] == rv[pos + i]);
                lemma_lex_irreflexive(xv.display_name);
            }
            lemma_filter_none(back, f);
            assert(back.filter(f) =~= Seq::<PackageModel>::empty());
            assert(front.filter(f) + seq![xv] =~= front.filter(f).push(xv));
            assert(rv.filter(f) =~= front.filter(f));
        } else {
            assert(front.filter(f) + Seq::<PackageModel>::empty() =~= front.filter(f));
        }
    }
}

/// The packages sorted by display name; packages with equal display names
/// keep their order.
pub fn sort_by_display_name(v: Vec<Package>) -> (r: Vec<Package>)
    ensures
        is_display_sort_of(package_views(r@), package_views(v@)),
{
    let ghost s = package_views(v@);
    let n = v.len();
    let mut rest = v;
    let mut out: Vec<Package> = Vec::new();
    let mut i: usize = 0;
    assert(s.take(0) =~= Seq::<PackageModel>::empty());
    assert(package_views(out@) =~= Seq::<PackageModel>::empty());
    assert(rest@ =~= v@.skip(0));
    while rest.len() > 0
        invariant
            s == package_views(v@),
            i <= v@.len(),
            n == v@.len(),
            rest@ == v@.skip(i as int),
            is_display_sort_of(package_views(out@), s.take(i as int)),
        decreases rest@.len(),
    {
        assert(v@.skip(i as int).len() > 0);
        assert(i < v@.len());
        let x = rest.remove(0);
        assert(x@ == s[i as int]);
        assert(s.take(i + 1) =~= s.take(i as int).push(x@));
        insert_by_display(&mut out, x, Ghost(s.take(i as int)));
        i = i + 1;
        assert(rest@ =~= v@.skip(i as int));
    }
    assert(s.take(i as int) =~= s);
    out
}

/// A display name that `r2` holds as often as `r1` is no greater than the
/// display name of `r1`'s last package.
proof fn lemma_key_bounded_by_last(r1: Seq<PackageModel>, r2: Seq<PackageModel>, y: PackageModel)
    requires
        r1.len() > 0,
        sorted_by_display(r1),
        r2.contains(y),
        r1.filter(with_display(y.display_name)) == r2.filter(with_display(y.display_name)),
    ensures
        !lex_lt(r1.last().display_name, y.display_name),
{
    let f = with_display(y.display_name);
    let j = choose|j: int| 0 <= j < r2.len() && r2[j] == y;
    r2.lemma_filter_contains(f, j);
    r1.lemma_filter_contains_rev(f, y);
    let i = choose|i: int| 0 <= i < r1.len() && r1[i] == y;
    if i < r1.len() - 1 {
        assert(!lex_lt(r1[r1.len() - 1].display_name, r1[i].display_name));
    } else {
        lemma_lex_irreflexive(y.display_name);
    }
}

/// Sorting by display name while keeping the order of packages with equal
/// display names has exactly one result.
pub proof fn lemma_display_sort_unique(r1: Seq<PackageModel>, r2: Seq<PackageModel>, s: Seq<PackageModel>)
    requires
        is_display_sort_of(r1, s),
        is_display_sort_of(r2, s),
    ensures
        r1 == r2,
    decreases r1.len() + r2.len(),
{
    if r1.len() == 0 && r2.len() == 0 {
        assert(r1 =~= r2);
        return;
    }
    if r1.len() == 0 || r2.len() == 0 {
        let (a, b) = if r1.len() == 0 { (r2, r1) } else { (r1, r2) };
        let x = a.last();
        let f = with_display(x.display_name);
        a.lemma_filter_contains(f, a.len() - 1);
        assert(a.filter(f) == b.filter(f));
        assert(b.filter(f) =~= Seq::<PackageModel>::empty()) by {
            reveal(Seq::filter);
        }
        assert(false);
    }
    let x = r1.last();
    let y = r2.last();
    assert(r1.contains(x)) by {
        assert(r1[r1.len() - 1] == x);
    }
    assert(r2.contains(y)) by {
        assert(r2[r2.len() - 1] == y);
    }
    assert(r1.filter(with_display(y.display_name)) == r2.filter(with_display(y.display_name)));
    assert(r2.filter(with_display(x.display_name)) == r1.filter(with_display(x.display_name)));
    lemma_key_bounded_by_last(r1, r2, y);
    lemma_key_bounded_by_last(r2, r1, x);
    lemma_lex_total(x.display_name, y.display_name);
    let k = x.display_name;
    let f = with_display(k);
    let d1 = r1.drop_last();
    let d2 = r2.drop_last();
    assert(r1 =~= d1.push(x));
    assert(r2 =~= d2.push(y));
    d1.lemma_filter_push(x, f);
    d2.lemma_filter_push(y, f);
    assert(r1.filter(f) == s.filter(f));
    assert(r2.filter(f) == s.filter(f));
    assert(d1.filter(f).push(x) == d2.filter(f).push(y));
    assert(x == d1.filter(f).push(x).last());
    assert(x == y);
    assert(d1.filter(f) =~= d1.filter(f).push(x).drop_last());
    assert(d2.filter(f) =~= d2.filter(f).push(y).drop_last());
    assert forall|q: Seq<char>| #[trigger] d1.filter(with_display(q)) == d2.filter(with_display(q)) by {
        let g = with_display(q);
        d1.lemma_filter_push(x, g);
        d2.lemma_filter_push(y, g);
        assert(r1.filter(g) == s.filter(g));
        assert(r2.filter(g) == s.filter(g));
    }
    assert(is_display_sort_of(d1, d1)) by {
        assert(sorted_by_display(d1)) by {
            assert forall|i: int, j: int| 0 <= i < j < d1.len() implies !lex_lt(d1[j].display_name, d1[i].display_name) by {
                assert(d1[i] == r1[i] && d1[j] == r1[j]);
            }
        }
    }
    assert(is_display_sort_of(d2, d1)) by {
        assert(sorted_by_display(d2)) by {
            assert forall|i: int, j: int| 0 <= i < j < d2.len() implies !lex_lt(d2[j].display_name, d2[i].display_name) by {
                assert(d2[i] == r2[i] && d2[j] == r2[j]);
            }
        }
    }
    lemma_display_sort_unique(d1, d2, d1);
}

} // verus!
