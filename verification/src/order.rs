//! Deterministic ordering of class entries, and a stable sort for them.
//!
//! Entries with a parsed (`Good`) schedule come before entries whose schedule
//! failed to parse (`Bad`). Among `Good` schedules the period number is the
//! primary key, ascending. Ties on the period are broken by the week arrays
//! compared position by position: at the first differing slot, the entry that
//! does not meet on that day sorts first. Entries the order cannot tell apart
//! are left in their original relative order by the sort.

use vstd::prelude::*;
use crate::data::{ClassEntry, SectionDataGuts};

verus! {

/// Week-array tie break: at the first slot where the two weeks differ, the
/// week that is off there sorts first; equal weeks compare as equal.
pub open spec fn days_le(x: Seq<bool>, y: Seq<bool>) -> bool
    decreases x.len(),
{
    if x.len() == 0 || y.len() == 0 {
        true
    } else if x[0] == y[0] {
        days_le(x.drop_first(), y.drop_first())
    } else {
        !x[0] && y[0]
    }
}

/// The entry order described above, as "less than or equivalent".
pub open spec fn entry_le(a: ClassEntry, b: ClassEntry) -> bool {
    match (a.section.guts, b.section.guts) {
        (
            SectionDataGuts::Good { days: ad, period: ap },
            SectionDataGuts::Good { days: bd, period: bp },
        ) => ap < bp || (ap == bp && days_le(ad@, bd@)),
        (SectionDataGuts::Good { .. }, SectionDataGuts::Bad(_)) => true,
        (SectionDataGuts::Bad(_), SectionDataGuts::Good { .. }) => false,
        (SectionDataGuts::Bad(_), SectionDataGuts::Bad(_)) => true,
    }
}

pub proof fn lemma_days_le_total(x: Seq<bool>, y: Seq<bool>)
    ensures
        days_le(x, y) || days_le(y, x),
    decreases x.len(),
{
    if x.len() != 0 && y.len() != 0 && x[0] == y[0] {
        lemma_days_le_total(x.drop_first(), y.drop_first());
    }
}

pub proof fn lemma_days_le_trans(x: Seq<bool>, y: Seq<bool>, z: Seq<bool>)
    requires
        x.len() == y.len() == z.len(),
        days_le(x, y),
        days_le(y, z),
    ensures
        days_le(x, z),
    decreases x.len(),
{
    if x.len() != 0 {
        if x[0] == y[0] && y[0] == z[0] {
            lemma_days_le_trans(x.drop_first(), y.drop_first(), z.drop_first());
        }
    }
}

/// The order is total: any two entries are comparable.
pub proof fn lemma_entry_le_total(a: ClassEntry, b: ClassEntry)
    ensures
        entry_le(a, b) || entry_le(b, a),
{
    match (a.section.guts, b.section.guts) {
        (
            SectionDataGuts::Good { days: ad, period: ap },
            SectionDataGuts::Good { days: bd, period: bp },
        ) => {
            if ap == bp {
                lemma_days_le_total(ad@, bd@);
            }
        },
        _ => {},
    }
}

/// The order is transitive.
pub proof fn lemma_entry_le_trans(a: ClassEntry, b: ClassEntry, c: ClassEntry)
    requires
        entry_le(a, b),
        entry_le(b, c),
    ensures
        entry_le(a, c),
{
    match (a.section.guts, b.section.guts, c.section.guts) {
        (
            SectionDataGuts::Good { days: ad, period: ap },
            SectionDataGuts::Good { days: bd, period: bp },
            SectionDataGuts::Good { days: cd, period: cp },
        ) => {
            if ap == bp && bp == cp {
                lemma_days_le_trans(ad@, bd@, cd@);
            }
        },
        _ => {},
    }
}

fn days_le_exec(x: &[bool; 7], y: &[bool; 7]) -> (r: bool)
    ensures
        r == days_le(x@, y@),
{
    let mut d: usize = 0;
    proof {
        assert(x@.skip(0) =~= x@);
        assert(y@.skip(0) =~= y@);
    }
    while d < 7
        invariant
            d <= 7,
            forall|m: int| 0 <= m < d ==> x@[m] == y@[m],
            days_le(x@.skip(d as int), y@.skip(d as int)) == days_le(x@, y@),
        decreases 7 - d,
    {
        let ghost xs = x@.skip(d as int);
        let ghost ys = y@.skip(d as int);
        proof {
            assert(xs[0] == x@[d as int]);
            assert(ys[0] == y@[d as int]);
            assert(xs.drop_first() =~= x@.skip(d + 1));
            assert(ys.drop_first() =~= y@.skip(d + 1));
        }
        if x[d] != y[d] {
            return !x[d] && y[d];
        }
        d = d + 1;
    }
    proof {
        assert(x@.skip(7) =~= Seq::<bool>::empty());
    }
    true
}

impl ClassEntry {
    /// Whether `self` sorts at or before `other`.
    pub fn le(&self, other: &ClassEntry) -> (r: bool)
        ensures
            r == entry_le(*self, *other),
    {
        match (&self.section.guts, &other.section.guts) {
            (
                SectionDataGuts::Good { days: ad, period: ap },
                SectionDataGuts::Good { days: bd, period: bp },
            ) => {
                if *ap < *bp {
                    true
                } else if *ap == *bp {
                    days_le_exec(ad, bd)
                } else {
                    false
                }
            },
            (SectionDataGuts::Good { .. }, SectionDataGuts::Bad(_)) => true,
            (SectionDataGuts::Bad(_), SectionDataGuts::Good { .. }) => false,
            (SectionDataGuts::Bad(_), SectionDataGuts::Bad(_)) => true,
        }
    }
}

/// Stable insertion of `x` into `s`: `x` goes after every element it does not
/// have to precede.
pub open spec fn insert_stable(s: Seq<ClassEntry>, x: ClassEntry) -> Seq<ClassEntry>
    decreases s.len(),
{
    if s.len() == 0 {
        seq![x]
    } else if entry_le(s.last(), x) {
        s.push(x)
    } else {
        insert_stable(s.drop_last(), x).push(s.last())
    }
}

/// Stable insertion sort over the entry order.
pub open spec fn sort_spec(s: Seq<ClassEntry>) -> Seq<ClassEntry>
    decreases s.len(),
{
    if s.len() == 0 {
        Seq::empty()
    } else {
        insert_stable(sort_spec(s.drop_last()), s.last())
    }
}

/// The sequence is sorted under the entry order.
pub open spec fn sorted(s: Seq<ClassEntry>) -> bool {
    forall|i: int, j: int| 0 <= i < j < s.len() ==> entry_le(#[trigger] s[i], #[trigger] s[j])
}

proof fn lemma_insert_stable_multiset(s: Seq<ClassEntry>, x: ClassEntry)
    ensures
        insert_stable(s, x).to_multiset() == s.push(x).to_multiset(),
        insert_stable(s, x).len() == s.len() + 1,
    decreases s.len(),
{
    broadcast use vstd::seq_lib::group_to_multiset_ensures;

    if s.len() == 0 {
    } else if entry_le(s.last(), x) {
    } else {
        lemma_insert_stable_multiset(s.drop_last(), x);
        assert(s.drop_last().push(x).to_multiset() =~= s.drop_last().to_multiset().insert(x));
        assert(insert_stable(s.drop_last(), x).push(s.last()).to_multiset() =~= insert_stable(
            s.drop_last(),
            x,
        ).to_multiset().insert(s.last()));
        assert(s.push(x).to_multiset() =~= s.to_multiset().insert(x));
        assert(s =~= s.drop_last().push(s.last()));
        assert(s.drop_last().push(s.last()).to_multiset() =~= s.drop_last().to_multiset().insert(
            s.last(),
        ));
    }
}

proof fn lemma_insert_stable_sorted(s: Seq<ClassEntry>, x: ClassEntry)
    requires
        sorted(s),
    ensures
        sorted(insert_stable(s, x)),
    decreases s.len(),
{
    broadcast use vstd::seq_lib::group_to_multiset_ensures;

    if s.len() == 0 {
    } else if entry_le(s.last(), x) {
        let r = s.push(x);
        assert forall|i: int, j: int| 0 <= i < j < r.len() implies entry_le(
            #[trigger] r[i],
            #[trigger] r[j],
        ) by {
            if j == r.len() - 1 {
                if i < s.len() - 1 {
                    assert(entry_le(s[i], s.last()));
                    lemma_entry_le_trans(s[i], s.last(), x);
                }
            }
        }
    } else {
        lemma_entry_le_total(s.last(), x);
        assert(entry_le(x, s.last()));
        let t = s.drop_last();
        assert(sorted(t));
        lemma_insert_stable_sorted(t, x);
        lemma_insert_stable_multiset(t, x);
        let it = insert_stable(t, x);
        let r = it.push(s.last());
        // every element of `it` is an element of `t` or is `x`; all precede s.last()
        assert forall|i: int, j: int| 0 <= i < j < r.len() implies entry_le(
            #[trigger] r[i],
            #[trigger] r[j],
        ) by {
            if j == r.len() - 1 {
                assert(it.to_multiset().contains(it[i]));
                assert(t.push(x).to_multiset().contains(it[i]));
                assert(t.push(x).contains(it[i]));
                let m = choose|m: int| 0 <= m < t.push(x).len() && t.push(x)[m] == it[i];
                if m < t.len() {
                    assert(entry_le(t[m], s.last()));
                } else {
                    assert(it[i] == x);
                    assert(entry_le(x, s.last()));
                }
            }
        }
    }
}

/// Sortedness of the specification sort.
pub proof fn lemma_sort_spec_sorted(s: Seq<ClassEntry>)
    ensures
        sorted(sort_spec(s)),
        sort_spec(s).to_multiset() == s.to_multiset(),
        sort_spec(s).len() == s.len(),
    decreases s.len(),
{
    broadcast use vstd::seq_lib::group_to_multiset_ensures;

    if s.len() > 0 {
        lemma_sort_spec_sorted(s.drop_last());
        lemma_insert_stable_sorted(sort_spec(s.drop_last()), s.last());
        lemma_insert_stable_multiset(sort_spec(s.drop_last()), s.last());
        assert(sort_spec(s.drop_last()).push(s.last()).to_multiset() =~= sort_spec(
            s.drop_last(),
        ).to_multiset().insert(s.last()));
        assert(s =~= s.drop_last().push(s.last()));
        assert(s.drop_last().push(s.last()).to_multiset() =~= s.drop_last().to_multiset().insert(
            s.last(),
        ));
    }
}

/// Law: sorting is idempotent — a sorted sequence is left exactly as it is,
/// so sorting twice gives the order sorting once gives.
pub proof fn lemma_sort_idempotent(s: Seq<ClassEntry>)
    ensures
        sort_spec(sort_spec(s)) == sort_spec(s),
{
    lemma_sort_spec_sorted(s);
    lemma_sorted_sort_identity(sort_spec(s));
}

/// A sorted sequence is its own sort.
pub proof fn lemma_sorted_sort_identity(s: Seq<ClassEntry>)
    requires
        sorted(s),
    ensures
        sort_spec(s) == s,
    decreases s.len(),
{
    if s.len() > 0 {
        let t = s.drop_last();
        assert(sorted(t));
        lemma_sorted_sort_identity(t);
        if t.len() > 0 {
            assert(entry_le(t.last(), s.last()));
            assert(insert_stable(t, s.last()) =~= s);
        } else {
            assert(insert_stable(t, s.last()) =~= s);
        }
    } else {
        assert(sort_spec(s) =~= s);
    }
}

/// Law: in a sorted sequence every entry with a `Bad` schedule comes after
/// every entry with a `Good` schedule.
pub proof fn lemma_sorted_bad_after_good(s: Seq<ClassEntry>, i: int, j: int)
    requires
        sorted(s),
        0 <= i < j < s.len(),
        s[j].section.guts matches SectionDataGuts::Good { .. },
    ensures
        s[i].section.guts matches SectionDataGuts::Good { .. },
{
    assert(entry_le(s[i], s[j]));
}

/// Law: in a sorted sequence the period numbers of `Good` entries never
/// decrease, so a strictly smaller period means a strictly earlier position.
pub proof fn lemma_sorted_periods_ascend(s: Seq<ClassEntry>, i: int, j: int)
    requires
        sorted(s),
        0 <= i < j < s.len(),
        s[i].section.guts matches SectionDataGuts::Good { period: pi, .. },
        s[j].section.guts matches SectionDataGuts::Good { period: pj, .. },
    ensures
        (s[i].section.guts matches SectionDataGuts::Good { period: pi, .. } && (
        s[j].section.guts matches SectionDataGuts::Good { period: pj, .. } && pi <= pj)),
{
    assert(entry_le(s[i], s[j]));
}

proof fn lemma_insert_stable_at(s: Seq<ClassEntry>, x: ClassEntry, pos: int)
    requires
        0 <= pos <= s.len(),
        forall|m: int| pos <= m < s.len() ==> !entry_le(#[trigger] s[m], x),
        pos > 0 ==> entry_le(s[pos - 1], x),
    ensures
        insert_stable(s, x) == s.take(pos).push(x) + s.skip(pos),
    decreases s.len(),
{
    if s.len() == 0 {
        assert(insert_stable(s, x) =~= s.take(pos).push(x) + s.skip(pos));
    } else if entry_le(s.last(), x) {
        assert(pos == s.len());
        assert(insert_stable(s, x) =~= s.take(pos).push(x) + s.skip(pos));
    } else {
        assert(pos < s.len());
        let t = s.drop_last();
        assert forall|m: int| pos <= m < t.len() implies !entry_le(#[trigger] t[m], x) by {
            assert(t[m] == s[m]);
        }
        if pos > 0 {
            assert(t[pos - 1] == s[pos - 1]);
        }
        lemma_insert_stable_at(t, x, pos);
        assert(t.take(pos) =~= s.take(pos));
        assert((t.take(pos).push(x) + t.skip(pos)).push(s.last()) =~= s.take(pos).push(x) + s.skip(
            pos,
        ));
    }
}

fn find_insert_pos(s: &Vec<ClassEntry>, x: &ClassEntry) -> (pos: usize)
    ensures
        pos <= s@.len(),
        forall|m: int| pos <= m < s@.len() ==> !entry_le(#[trigger] s@[m], *x),
        pos > 0 ==> entry_le(s@[pos - 1], *x),
{
    let mut pos: usize = s.len();
    while pos > 0
        invariant
            pos <= s@.len(),
            forall|m: int| pos <= m < s@.len() ==> !entry_le(#[trigger] s@[m], *x),
        decreases pos,
    {
        if s[pos - 1].le(x) {
            return pos;
        }
        pos = pos - 1;
    }
    0
}

fn insert_stable_exec(s: &mut Vec<ClassEntry>, x: ClassEntry)
    ensures
        final(s)@ == insert_stable(old(s)@, x),
{
    let pos = find_insert_pos(s, &x);
    proof {
        lemma_insert_stable_at(s@, x, pos as int);
    }
    s.insert(pos, x);
    proof {
        assert(s@ =~= old(s)@.take(pos as int).push(x) + old(s)@.skip(pos as int));
    }
}

/// Sort class entries by the entry order, keeping the original relative order
/// of entries the order cannot tell apart.
pub fn sort_class_entries(v: Vec<ClassEntry>) -> (r: Vec<ClassEntry>)
    ensures
        r@ == sort_spec(v@),
        sorted(r@),
        r@.to_multiset() == v@.to_multiset(),
        r@.len() == v@.len(),
{
    let ghost orig = v@;
    let mut rest = v;
    let mut out: Vec<ClassEntry> = Vec::new();
    let ghost mut k: int = 0;
    proof {
        assert(orig.take(0) =~= Seq::<ClassEntry>::empty());
        assert(orig.skip(0) =~= orig);
    }
    while rest.len() > 0
        invariant
            0 <= k <= orig.len(),
            rest@ =~= orig.skip(k),
            out@ == sort_spec(orig.take(k)),
        decreases rest@.len(),
    {
        let x = rest.remove(0);
        proof {
            assert(x == orig[k]);
            assert(rest@ =~= orig.skip(k + 1));
            assert(orig.take(k + 1).drop_last() =~= orig.take(k));
            assert(orig.take(k + 1).last() == orig[k]);
        }
        insert_stable_exec(&mut out, x);
        proof {
            k = k + 1;
        }
    }
    proof {
        assert(orig.take(k) =~= orig);
        lemma_sort_spec_sorted(orig);
    }
    out
}

} // verus!
