//! Sorting records by name, stably.
use vstd::prelude::*;
use crate::text::{chars_le, chars_lt, lemma_chars_lt_total, lemma_chars_lt_transitive, str_less};

verus! {

/// A record with a name to sort by.
pub trait Named: View {
    /// The name of a record, as plain values.
    spec fn name_of(v: Self::V) -> Seq<char>;

    /// The record's name.
    fn name_str(&self) -> (r: &str)
        ensures
            r@ == Self::name_of(self@),
    ;
}

/// The views of a sequence of records.
pub open spec fn views<T: View>(s: Seq<T>) -> Seq<T::V> {
    s.map_values(|t: T| t@)
}

/// Whether the definitions are in non-decreasing order of name.
pub open spec fn sorted_by_name<T: Named>(defs: Seq<T::V>) -> bool {
    forall|i: int, j: int|
        0 <= i < j < defs.len() ==> chars_le(#[trigger] T::name_of(defs[i]), #[trigger] T::name_of(defs[j]))
}

/// The definitions in `defs` named `name`, in order.
pub open spec fn named<T: Named>(defs: Seq<T::V>, name: Seq<char>) -> Seq<T::V>
    decreases defs.len(),
{
    if defs.len() == 0 {
        seq![]
    } else if T::name_of(defs.last()) == name {
        named::<T>(defs.drop_last(), name).push(defs.last())
    } else {
        named::<T>(defs.drop_last(), name)
    }
}

/// `sorted` is `defs` sorted stably by name: in name order, and for every
/// name the entries holding it in the order they had.
pub open spec fn stably_sorted_by_name<T: Named>(defs: Seq<T::V>, sorted: Seq<T::V>) -> bool {
    &&& sorted_by_name::<T>(sorted)
    &&& forall|name: Seq<char>| #[trigger] named::<T>(sorted, name) == named::<T>(defs, name)
}

/// `named` distributes over concatenation.
pub proof fn lemma_named_concat<T: Named>(a: Seq<T::V>, b: Seq<T::V>, name: Seq<char>)
    ensures
        named::<T>(a + b, name) == named::<T>(a, name) + named::<T>(b, name),
    decreases b.len(),
{
    if b.len() == 0 {
        assert(a + b =~= a);
        assert(named::<T>(a, name) + named::<T>(b, name) =~= named::<T>(a, name));
    } else {
        assert((a + b).drop_last() =~= a + b.drop_last());
        lemma_named_concat::<T>(a, b.drop_last(), name);
        if T::name_of(b.last()) == name {
            assert(named::<T>(a, name) + named::<T>(b.drop_last(), name).push(b.last()) =~= (named::<T>(a, name)
                + named::<T>(b.drop_last(), name)).push(b.last()));
        }
    }
}

/// A sequence none of whose names is `name` holds nothing named `name`.
proof fn lemma_named_none<T: Named>(defs: Seq<T::V>, name: Seq<char>)
    requires
        forall|q: int| 0 <= q < defs.len() ==> #[trigger] T::name_of(defs[q]) != name,
    ensures
        named::<T>(defs, name) == Seq::<T::V>::empty(),
    decreases defs.len(),
{
    if defs.len() > 0 {
        lemma_named_none::<T>(defs.drop_last(), name);
    }
}

/// `a < b <= c` gives `a < c`.
proof fn lemma_lt_le(a: Seq<char>, b: Seq<char>, c: Seq<char>)
    requires
        chars_lt(a, b),
        chars_le(b, c),
    ensures
        chars_lt(a, c),
{
    lemma_chars_lt_total(b, c);
    if b != c {
        lemma_chars_lt_transitive(a, b, c);
    }
}

/// Inserting `x` after every entry whose name is not above its own keeps a
/// stable sort stable.
proof fn lemma_insert_stable<T: Named>(
    orig: Seq<T::V>,
    sorted: Seq<T::V>,
    x: T::V,
    p: int,
)
    requires
        stably_sorted_by_name::<T>(orig, sorted),
        0 <= p <= sorted.len(),
        forall|q: int| 0 <= q < p ==> chars_le(#[trigger] T::name_of(sorted[q]), T::name_of(x)),
        forall|q: int| p <= q < sorted.len() ==> chars_lt(T::name_of(x), #[trigger] T::name_of(sorted[q])),
    ensures
        stably_sorted_by_name::<T>(orig.push(x), sorted.insert(p, x)),
{
    let r = sorted.insert(p, x);
    let pre = sorted.subrange(0, p);
    let suf = sorted.subrange(p, sorted.len() as int);
    assert(sorted =~= pre + suf);
    assert(r =~= pre + seq![x] + suf);
    assert forall|i: int, j: int| 0 <= i < j < r.len() implies chars_le(
        #[trigger] T::name_of(r[i]),
        #[trigger] T::name_of(r[j]),
    ) by {
        if j < p {
            assert(r[i] == sorted[i] && r[j] == sorted[j]);
        } else if j == p {
            assert(r[i] == sorted[i]);
        } else if i == p {
            assert(r[j] == sorted[j - 1]);
            lemma_chars_lt_total(T::name_of(x), T::name_of(sorted[j - 1]));
        } else if i < p {
            assert(r[i] == sorted[i] && r[j] == sorted[j - 1]);
        } else {
            assert(r[i] == sorted[i - 1] && r[j] == sorted[j - 1]);
        }
    }
    assert forall|name: Seq<char>| #[trigger] named::<T>(r, name) == named::<T>(orig.push(x), name) by {
        lemma_named_concat::<T>(pre + seq![x], suf, name);
        lemma_named_concat::<T>(pre, seq![x], name);
        lemma_named_concat::<T>(pre, suf, name);
        assert(orig.push(x).drop_last() =~= orig);
        assert(seq![x].drop_last() =~= Seq::<T::V>::empty());
        assert(seq![x].last() == x);
        assert(named::<T>(Seq::<T::V>::empty(), name) =~= Seq::<T::V>::empty());
        if T::name_of(x) == name {
            assert forall|q: int| 0 <= q < suf.len() implies #[trigger] T::name_of(suf[q]) != name by {
                assert(suf[q] == sorted[p + q]);
                lemma_chars_lt_total(T::name_of(x), T::name_of(x));
            }
            lemma_named_none::<T>(suf, name);
            assert(named::<T>(pre, name) + named::<T>(seq![x], name) + named::<T>(suf, name) =~= (named::<T>(
                pre,
                name,
            ) + named::<T>(suf, name)).push(x));
        } else {
            assert(named::<T>(seq![x], name) =~= Seq::<T::V>::empty());
            assert(named::<T>(pre, name) + named::<T>(seq![x], name) + named::<T>(suf, name) =~= named::<T>(pre, name)
                + named::<T>(suf, name));
        }
    }
}

/// Sorts the definitions by name, keeping entries of equal name in the order
/// they had.
pub fn sort_by_name<T: Named>(defs: Vec<T>) -> (r: Vec<T>)
    ensures
        stably_sorted_by_name::<T>(views(defs@), views(r@)),
{
    let ghost orig = views(defs@);
    let mut rest = defs;
    let mut sorted: Vec<T> = Vec::new();
    let ghost mut done: int = 0;
    proof {
        assert(orig.take(0) =~= Seq::<T::V>::empty());
        assert forall|name: Seq<char>| #[trigger]
            named::<T>(views(sorted@), name) == named::<T>(orig.take(0), name) by {
            assert(views(sorted@) =~= Seq::<T::V>::empty());
        }
        assert(views(rest@) =~= orig.skip(0));
    }
    while rest.len() > 0
        invariant
            0 <= done <= orig.len(),
            views(rest@) == orig.skip(done),
            stably_sorted_by_name::<T>(orig.take(done), views(sorted@)),
        decreases rest.len(),
    {
        let ghost rest_before = rest@;
        let x = rest.remove(0);
        let ghost xv = x@;
        proof {
            assert(views(rest_before)[0] == rest_before[0]@);
            assert(views(rest_before).len() == rest_before.len());
            assert(done < orig.len());
            assert(orig.skip(done)[0] == orig[done]);
            assert(xv == orig[done]);
            assert(views(rest@) =~= orig.skip(done + 1)) by {
                assert(rest@ =~= rest_before.subrange(1, rest_before.len() as int));
                assert forall|q: int| 0 <= q < rest@.len() implies #[trigger] views(rest@)[q]
                    == orig.skip(done + 1)[q] by {
                    assert(views(rest_before)[q + 1] == rest_before[q + 1]@);
                    assert(orig.skip(done)[q + 1] == orig.skip(done + 1)[q]);
                }
            }
        }
        let mut p: usize = 0;
        while p < sorted.len() && !str_less(x.name_str(), sorted[p].name_str())
            invariant
                p <= sorted.len(),
                xv == x@,
                forall|q: int|
                    0 <= q < p ==> chars_le(#[trigger] T::name_of(views(sorted@)[q]), T::name_of(xv)),
            decreases sorted.len() - p,
        {
            p = p + 1;
        }
        proof {
            let sv = views(sorted@);
            assert forall|q: int| p <= q < sv.len() implies chars_lt(
                T::name_of(xv),
                #[trigger] T::name_of(sv[q]),
            ) by {
                assert(chars_lt(T::name_of(xv), T::name_of(sv[p as int])));
                if q > p {
                    lemma_lt_le(T::name_of(xv), T::name_of(sv[p as int]), T::name_of(sv[q]));
                }
            }
            lemma_insert_stable::<T>(orig.take(done), sv, xv, p as int);
            assert(orig.take(done).push(xv) =~= orig.take(done + 1));
        }
        let ghost before = sorted@;
        sorted.insert(p, x);
        proof {
            assert(views(sorted@) =~= views(before).insert(p as int, xv));
            done = done + 1;
        }
    }
    proof {
        assert(orig.take(done) =~= orig);
    }
    sorted
}


} // verus!
