use vstd::prelude::*;

use crate::rat::Rat;
use crate::source::{
    clamped, lemma_sum_clamped_bound, lemma_sum_clamped_nonneg, set_share_spec, sum_clamped,
    Source,
};

verus! {

/// `a`'s share is strictly below `b`'s. Shares are ratios over one common
/// denominator, so the comparison reads the numerators and the sign of that
/// denominator; with a zero denominator no share is below another, and a
/// source without an assigned share never compares below or above one.
pub open spec fn share_lt(a: Source, b: Source) -> bool {
    match (a.percent_of_total, b.percent_of_total) {
        (Some(x), Some(y)) => x.den == y.den && (if x.den > 0 {
            x.num < y.num
        } else if x.den < 0 {
            x.num > y.num
        } else {
            false
        }),
        _ => false,
    }
}

/// Descending order by share: no element is strictly below a later one.
pub open spec fn sorted_desc(s: Seq<Source>) -> bool {
    forall|i: int, j: int| 0 <= i < j < s.len() ==> !share_lt(s[i], s[j])
}

/// The first position whose element sits strictly below `x`; the length if
/// no element does. A stable descending insertion puts `x` there, after
/// every element that ties with it.
pub open spec fn first_lt(s: Seq<Source>, x: Source) -> int
    decreases s.len(),
{
    if s.len() == 0 {
        0
    } else if share_lt(s[0], x) {
        0
    } else {
        1 + first_lt(s.drop_first(), x)
    }
}

/// `x` inserted into `s` before the first element strictly below it.
pub open spec fn insert_desc(s: Seq<Source>, x: Source) -> Seq<Source>
    decreases s.len(),
{
    if s.len() == 0 {
        seq![x]
    } else if share_lt(s[0], x) {
        seq![x] + s
    } else {
        seq![s[0]] + insert_desc(s.drop_first(), x)
    }
}

/// The stable descending sort: each element inserted, in input order, after
/// everything that does not sit strictly below it. Tied elements therefore
/// keep their input order.
pub open spec fn sort_desc(s: Seq<Source>) -> Seq<Source>
    decreases s.len(),
{
    if s.len() == 0 {
        Seq::empty()
    } else {
        insert_desc(sort_desc(s.drop_last()), s.last())
    }
}

/// Every source of `s` with its share set from `total`.
pub open spec fn assign_shares(s: Seq<Source>, total: i128) -> Seq<Source> {
    s.map_values(|t: Source| set_share_spec(t, total))
}

/// The sum of the newest readings of `s`, unclamped: the denominator of the
/// shares.
pub open spec fn total_latest(s: Seq<Source>) -> int
    decreases s.len(),
{
    if s.len() == 0 {
        0
    } else {
        total_latest(s.drop_last()) + s.last().latest()
    }
}

proof fn lemma_first_lt(s: Seq<Source>, x: Source)
    ensures
        0 <= first_lt(s, x) <= s.len(),
        forall|k: int| 0 <= k < first_lt(s, x) ==> !share_lt(s[k], x),
        first_lt(s, x) < s.len() ==> share_lt(s[first_lt(s, x)], x),
    decreases s.len(),
{
    if s.len() == 0 {
    } else if share_lt(s[0], x) {
    } else {
        lemma_first_lt(s.drop_first(), x);
        let fi = first_lt(s, x);
        assert forall|k: int| 0 <= k < fi implies !share_lt(s[k], x) by {
            if k > 0 {
                assert(s.drop_first()[k - 1] == s[k]);
            }
        }
        if fi < s.len() {
            assert(s.drop_first()[fi - 1] == s[fi]);
        }
    }
}

proof fn lemma_insert_desc_at(s: Seq<Source>, x: Source)
    ensures
        insert_desc(s, x) == s.insert(first_lt(s, x), x),
    decreases s.len(),
{
    lemma_first_lt(s, x);
    if s.len() == 0 {
        assert(insert_desc(s, x) =~= s.insert(0, x));
    } else if share_lt(s[0], x) {
        assert(seq![x] + s =~= s.insert(0, x));
    } else {
        lemma_insert_desc_at(s.drop_first(), x);
        lemma_first_lt(s.drop_first(), x);
        let fi = first_lt(s, x);
        assert(seq![s[0]] + s.drop_first().insert(fi - 1, x) =~= s.insert(fi, x));
    }
}

proof fn lemma_insert_desc_sorted(s: Seq<Source>, x: Source)
    requires
        sorted_desc(s),
    ensures
        sorted_desc(insert_desc(s, x)),
{
    lemma_first_lt(s, x);
    lemma_insert_desc_at(s, x);
    let fi = first_lt(s, x);
    let r = s.insert(fi, x);
    assert forall|i: int, j: int| 0 <= i < j < r.len() implies !share_lt(r[i], r[j]) by {
        if i < fi && j < fi {
        } else if i < fi && j == fi {
        } else if i == fi && j > fi {
            if share_lt(x, s[j - 1]) {
                if fi < j - 1 {
                    assert(!share_lt(s[fi], s[j - 1]));
                }
            }
        } else if i < fi && j > fi {
        } else if i > fi && j > fi {
        }
    }
}

/// The stable sort leaves its input's length alone and orders it descending
/// by share: no source stands strictly below a later one, so on distinct
/// shares the order is strictly descending.
pub proof fn lemma_sort_desc_sorted(s: Seq<Source>)
    ensures
        sort_desc(s).len() == s.len(),
        sorted_desc(sort_desc(s)),
    decreases s.len(),
{
    if s.len() > 0 {
        lemma_sort_desc_sorted(s.drop_last());
        lemma_insert_desc_sorted(sort_desc(s.drop_last()), s.last());
        lemma_insert_desc_at(sort_desc(s.drop_last()), s.last());
        lemma_first_lt(sort_desc(s.drop_last()), s.last());
    }
}

/// In a descending-sorted portfolio whose shares sit over one positive
/// common denominator, two distinct shares stand in strictly descending
/// order: the earlier numerator is the larger one.
pub proof fn lemma_sorted_strict_on_distinct(s: Seq<Source>, i: int, j: int, d: i128)
    requires
        sorted_desc(s),
        0 <= i < j < s.len(),
        d > 0,
        s[i].percent_of_total matches Some(x) && x.den == d,
        s[j].percent_of_total matches Some(y) && y.den == d,
        s[i].percent_of_total != s[j].percent_of_total,
    ensures
        s[i].percent_of_total->Some_0.num > s[j].percent_of_total->Some_0.num,
{
    assert(!share_lt(s[i], s[j]));
}

proof fn lemma_total_latest_add(a: Seq<Source>, b: Seq<Source>)
    ensures
        total_latest(a + b) == total_latest(a) + total_latest(b),
    decreases b.len(),
{
    if b.len() == 0 {
        assert(a + b =~= a);
    } else {
        lemma_total_latest_add(a, b.drop_last());
        assert((a + b).drop_last() =~= a + b.drop_last());
        assert((a + b).last() == b.last());
    }
}

proof fn lemma_insert_desc_total(s: Seq<Source>, x: Source)
    ensures
        total_latest(insert_desc(s, x)) == total_latest(s) + x.latest(),
{
    lemma_first_lt(s, x);
    lemma_insert_desc_at(s, x);
    let fi = first_lt(s, x);
    let pre = s.subrange(0, fi);
    let post = s.subrange(fi, s.len() as int);
    assert(s.insert(fi, x) =~= pre + seq![x] + post);
    assert(s =~= pre + post);
    lemma_total_latest_add(pre + seq![x], post);
    lemma_total_latest_add(pre, seq![x]);
    lemma_total_latest_add(pre, post);
    assert(seq![x].drop_last() =~= Seq::<Source>::empty());
    assert(total_latest(Seq::<Source>::empty()) == 0);
    assert(total_latest(seq![x]) == x.latest());
}

/// Sorting moves sources around without touching them, so the raw total of
/// the newest readings is the same before and after.
pub proof fn lemma_sort_desc_total(s: Seq<Source>)
    ensures
        total_latest(sort_desc(s)) == total_latest(s),
    decreases s.len(),
{
    if s.len() > 0 {
        lemma_sort_desc_total(s.drop_last());
        lemma_insert_desc_total(sort_desc(s.drop_last()), s.last());
    }
}

/// Assigning shares touches no reading, so the raw total of the newest
/// readings is the same before and after.
pub proof fn lemma_assign_shares_total(s: Seq<Source>, total: i128)
    ensures
        total_latest(assign_shares(s, total)) == total_latest(s),
    decreases s.len(),
{
    if s.len() > 0 {
        lemma_assign_shares_total(s.drop_last(), total);
        assert(assign_shares(s, total).drop_last() =~= assign_shares(s.drop_last(), total));
        assert(assign_shares(s, total).last() == set_share_spec(s.last(), total));
    }
}

proof fn lemma_insert_desc_all(s: Seq<Source>, x: Source, p: spec_fn(Source) -> bool)
    requires
        forall|i: int| 0 <= i < s.len() ==> p(s[i]),
        p(x),
    ensures
        forall|i: int| 0 <= i < insert_desc(s, x).len() ==> p(insert_desc(s, x)[i]),
{
    lemma_first_lt(s, x);
    lemma_insert_desc_at(s, x);
}

proof fn lemma_sort_desc_all(s: Seq<Source>, p: spec_fn(Source) -> bool)
    requires
        forall|i: int| 0 <= i < s.len() ==> p(s[i]),
    ensures
        forall|i: int| 0 <= i < sort_desc(s).len() ==> p(sort_desc(s)[i]),
    decreases s.len(),
{
    if s.len() > 0 {
        lemma_sort_desc_all(s.drop_last(), p);
        lemma_insert_desc_all(sort_desc(s.drop_last()), s.last(), p);
    }
}

/// The predicate that picks the sources whose assigned share is exactly `v`:
/// the tied sources of one tie class.
pub open spec fn tie_pred(v: Rat) -> spec_fn(Source) -> bool {
    |t: Source| t.percent_of_total == Some(v)
}

proof fn lemma_filter_all_false(s: Seq<Source>, p: spec_fn(Source) -> bool)
    requires
        forall|i: int| 0 <= i < s.len() ==> !p(s[i]),
    ensures
        s.filter(p) == Seq::<Source>::empty(),
    decreases s.len(),
{
    reveal(Seq::filter);
    if s.len() > 0 {
        lemma_filter_all_false(s.drop_last(), p);
    }
}

proof fn lemma_insert_desc_filter(s: Seq<Source>, x: Source, v: Rat)
    requires
        sorted_desc(s),
    ensures
        insert_desc(s, x).filter(tie_pred(v)) == if tie_pred(v)(x) {
            s.filter(tie_pred(v)).push(x)
        } else {
            s.filter(tie_pred(v))
        },
{
    broadcast use vstd::seq_lib::group_seq_properties;

    reveal(Seq::filter);
    let p = tie_pred(v);
    lemma_first_lt(s, x);
    lemma_insert_desc_at(s, x);
    let fi = first_lt(s, x);
    let pre = s.subrange(0, fi);
    let post = s.subrange(fi, s.len() as int);
    assert(s.insert(fi, x) =~= (pre + seq![x]) + post);
    assert(s =~= pre + post);
    Seq::filter_distributes_over_add(pre + seq![x], post, p);
    Seq::filter_distributes_over_add(pre, seq![x], p);
    Seq::filter_distributes_over_add(pre, post, p);
    assert(seq![x].drop_last() =~= Seq::<Source>::empty());
    assert(Seq::<Source>::empty().filter(p) =~= Seq::<Source>::empty());
    if p(x) {
        // Everything at or past the insertion point sits strictly below `x`,
        // and a tied source never does, so the tail holds no tied source.
        assert forall|k: int| 0 <= k < post.len() implies !p(post[k]) by {
            if p(post[k]) {
                assert(share_lt(s[fi], x));
                if fi + k > fi {
                    assert(!share_lt(s[fi], s[fi + k]));
                }
                assert(post[k] == s[fi + k]);
            }
        }
        lemma_filter_all_false(post, p);
        assert(seq![x].filter(p) =~= seq![x]);
        assert(insert_desc(s, x).filter(p) =~= s.filter(p).push(x));
    } else {
        assert(seq![x].filter(p) =~= Seq::<Source>::empty());
        assert(insert_desc(s, x).filter(p) =~= s.filter(p));
    }
}

/// Stability of the sort: within one tie class — the sources whose assigned
/// share is exactly `v` — the sorted portfolio keeps the input order: the
/// tied sources, read off in order, are the same subsequence before and
/// after sorting.
pub proof fn lemma_sort_desc_stable(s: Seq<Source>, v: Rat)
    ensures
        sort_desc(s).filter(tie_pred(v)) == s.filter(tie_pred(v)),
    decreases s.len(),
{
    reveal(Seq::filter);
    if s.len() > 0 {
        lemma_sort_desc_stable(s.drop_last(), v);
        lemma_sort_desc_sorted(s.drop_last());
        lemma_insert_desc_filter(sort_desc(s.drop_last()), s.last(), v);
    }
}

/// What one source adds to the numerators of the shares: the numerator of
/// its assigned share, zero while none is assigned.
pub open spec fn share_num_of(s: Source) -> int {
    match s.percent_of_total {
        Some(r) => r.num as int,
        None => 0,
    }
}

/// The sum of the share numerators across a portfolio.
pub open spec fn sum_share_nums(s: Seq<Source>) -> int
    decreases s.len(),
{
    if s.len() == 0 {
        0
    } else {
        sum_share_nums(s.drop_last()) + share_num_of(s.last())
    }
}

/// The shares of a portfolio of sources with positive newest readings sum
/// to one hundred percent, exactly: each share is `100 * reading` over the
/// common total, and the numerators sum to `100 * total`, so the ratios sum
/// to `100`. With every reading positive the clamp changes nothing and the
/// denominator equals the sum of the numerators' readings.
pub proof fn lemma_shares_sum_to_hundred(s: Seq<Source>, total: i128)
    requires
        s.len() >= 1,
        forall|i: int| 0 <= i < s.len() ==> s[i].percent_of_total == Some(
            Rat { num: (100 * clamped(s[i].latest())) as i128, den: total },
        ),
        forall|i: int| 0 <= i < s.len() ==> s[i].latest() > 0,
    ensures
        sum_share_nums(s) == 100 * total_latest(s),
    decreases s.len(),
{
    let l = s.last().latest();
    assert(s.last() == s[s.len() - 1]);
    assert(l > 0);
    assert(clamped(l) == l);
    assert(share_num_of(s.last()) == 100 * l);
    if s.len() == 1 {
        assert(s.drop_last().len() == 0);
        assert(sum_share_nums(s.drop_last()) == 0);
        assert(total_latest(s.drop_last()) == 0);
    } else {
        assert forall|i: int| 0 <= i < s.drop_last().len() implies s.drop_last()[i] == s[i] by {}
        lemma_shares_sum_to_hundred(s.drop_last(), total);
    }
}

/// The sum over the portfolio of each source's clamped windowed total.
pub open spec fn portfolio_sum_clamped(s: Seq<Source>, n: int) -> int
    decreases s.len(),
{
    if s.len() == 0 {
        0
    } else {
        portfolio_sum_clamped(s.drop_last(), n) + sum_clamped(
            s.last().api_response.series@[0].data@,
            n,
        )
    }
}

/// `a`'s share is strictly below `b`'s, as executable code.
pub fn share_lt_exec(a: &Source, b: &Source) -> (r: bool)
    ensures
        r == share_lt(*a, *b),
{
    match (a.percent_of_total, b.percent_of_total) {
        (Some(x), Some(y)) => x.den == y.den && (if x.den > 0 {
            x.num < y.num
        } else if x.den < 0 {
            x.num > y.num
        } else {
            false
        }),
        _ => false,
    }
}

/// Puts `x` before the first element of `v` whose share sits strictly below
/// `x`'s, after every element that ties with it.
fn insert_sorted(v: &mut Vec<Source>, x: Source)
    ensures
        final(v)@ == insert_desc(old(v)@, x),
{
    let mut i: usize = 0;
    while i < v.len() && !share_lt_exec(&v[i], &x)
        invariant
            i <= v@.len(),
            v@ == old(v)@,
            forall|k: int| 0 <= k < i ==> !share_lt(v@[k], x),
        decreases v@.len() - i,
    {
        i += 1;
    }
    proof {
        lemma_first_lt(v@, x);
        lemma_insert_desc_at(v@, x);
        let fi = first_lt(v@, x);
        if fi < i as int {
            assert(share_lt(v@[fi], x));
        }
        if fi > i as int {
            assert(!share_lt(v@[i as int], x));
        }
        assert(fi == i as int);
    }
    v.insert(i, x);
}

/// The private sum behind `Sources::total`: the newest readings, unclamped,
/// added up.
fn sum_latest(v: &Vec<Source>) -> (r: i128)
    requires
        forall|i: int| 0 <= i < v@.len() ==> v@[i].wf(),
    ensures
        r == total_latest(v@),
{
    let n = v.len();
    let mut acc: i128 = 0;
    let mut j: usize = 0;
    while j < n
        invariant
            n == v@.len(),
            j <= n,
            forall|i: int| 0 <= i < v@.len() ==> v@[i].wf(),
            acc == total_latest(v@.subrange(0, j as int)),
            -(j as int) * 0x8000_0000_0000_0000 <= acc <= (j as int) * 0x7fff_ffff_ffff_ffff,
        decreases n - j,
    {
        let x = v[j].get_last_val();
        proof {
            assert(v@.subrange(0, j + 1 as int).drop_last() =~= v@.subrange(0, j as int));
            assert(v@.subrange(0, j + 1 as int).last() == v@[j as int]);
        }
        acc = acc + x as i128;
        j += 1;
    }
    proof {
        assert(v@.subrange(0, n as int) =~= v@);
    }
    acc
}

/// The portfolio: the ordered collection of sources. After construction it
/// is sorted by share descending, stably, every source carries its share,
/// and the shares' common denominator is the raw total of the newest
/// readings.
pub struct Sources {
    pub sources: Vec<Source>,
}

impl Sources {
    /// Assembles the portfolio: sums the raw (unclamped) newest readings
    /// into the total, hands every source its share of that total, and
    /// sorts by share descending, tied sources keeping their input order.
    pub fn new(sources: Vec<Source>) -> (r: Sources)
        requires
            forall|i: int| 0 <= i < sources@.len() ==> sources@[i].wf(),
        ensures
            r.sources@ == sort_desc(
                assign_shares(sources@, total_latest(sources@) as i128),
            ),
            r.sources@.len() == sources@.len(),
            total_latest(r.sources@) == total_latest(sources@),
            forall|i: int| 0 <= i < r.sources@.len() ==> r.sources@[i].wf(),
            forall|i: int|
                0 <= i < r.sources@.len() ==> r.sources@[i].percent_of_total == Some(
                    Rat {
                        num: (100 * clamped(r.sources@[i].latest())) as i128,
                        den: total_latest(sources@) as i128,
                    },
                ),
    {
        let ghost orig = sources@;
        let total = sum_latest(&sources);
        let n = sources.len();
        let mut rest = sources;
        let mut out: Vec<Source> = Vec::new();
        let mut k: usize = 0;
        while k < n
            invariant
                n == orig.len(),
                k <= n,
                rest@ == orig.subrange(k as int, n as int),
                out@ == sort_desc(assign_shares(orig.subrange(0, k as int), total)),
                forall|i: int| 0 <= i < orig.len() ==> orig[i].wf(),
                total == total_latest(orig) as i128,
            decreases n - k,
        {
            let mut s = rest.remove(0);
            proof {
                assert(orig.subrange(k as int, n as int)[0] == orig[k as int]);
                assert(orig.subrange(k as int, n as int).remove(0) =~= orig.subrange(
                    k + 1 as int,
                    n as int,
                ));
            }
            s.update_percent_of_total(total);
            insert_sorted(&mut out, s);
            proof {
                let w = assign_shares(orig.subrange(0, k as int), total);
                let w1 = assign_shares(orig.subrange(0, k + 1 as int), total);
                assert(w1.drop_last() =~= w);
                assert(w1.last() == set_share_spec(orig[k as int], total));
                assert(w1.len() == k + 1);
                assert(sort_desc(w1) == insert_desc(sort_desc(w1.drop_last()), w1.last()));
            }
            k += 1;
        }
        proof {
            assert(orig.subrange(0, n as int) =~= orig);
            let shared = assign_shares(orig, total);
            lemma_sort_desc_total(shared);
            lemma_assign_shares_total(orig, total);
            lemma_sort_desc_sorted(shared);
            let p = |t: Source|
                t.wf() && t.percent_of_total == Some(
                    Rat { num: (100 * clamped(t.latest())) as i128, den: total },
                );
            assert forall|i: int| 0 <= i < shared.len() implies p(shared[i]) by {
                assert(shared[i] == set_share_spec(orig[i], total));
            }
            lemma_sort_desc_all(shared, p);
            assert forall|i: int|
                0 <= i < sort_desc(shared).len() implies sort_desc(shared)[i].wf() by {
                assert(p(sort_desc(shared)[i]));
            }
            assert forall|i: int|
                0 <= i < sort_desc(shared).len() implies sort_desc(shared)[i].percent_of_total
                    == Some(
                    Rat {
                        num: (100 * clamped(sort_desc(shared)[i].latest())) as i128,
                        den: total,
                    },
                ) by {
                assert(p(sort_desc(shared)[i]));
            }
        }
        Sources { sources: out }
    }

    /// The raw total of the newest readings, unclamped: the denominator the
    /// shares were computed over, recomputable on demand.
    pub fn total(&self) -> (r: i128)
        requires
            forall|i: int| 0 <= i < self.sources@.len() ==> self.sources@[i].wf(),
        ensures
            r == total_latest(self.sources@),
    {
        sum_latest(&self.sources)
    }

    /// The sum over all sources of the newest `hours` clamped readings, in
    /// milli-units.
    pub fn total_over_n_hours(&self, hours: usize) -> (r: i128)
        requires
            forall|i: int| 0 <= i < self.sources@.len() ==> self.sources@[i].wf(),
            self.sources@.len() * hours <= 0xffff_ffff_ffff_ffff,
        ensures
            r == portfolio_sum_clamped(self.sources@, hours as int),
    {
        let v = &self.sources;
        let n = v.len();
        let mut acc: i128 = 0;
        let mut j: usize = 0;
        while j < n
            invariant
                v == self.sources,
                n == v@.len(),
                j <= n,
                forall|i: int| 0 <= i < v@.len() ==> v@[i].wf(),
                n * hours <= 0xffff_ffff_ffff_ffff,
                acc == portfolio_sum_clamped(v@.subrange(0, j as int), hours as int),
                0 <= acc <= (j as int) * (hours as int) * 0x7fff_ffff_ffff_ffff,
            decreases n - j,
        {
            let t = v[j].total_over_n_hours(hours);
            proof {
                assert(v@.subrange(0, j + 1 as int).drop_last() =~= v@.subrange(0, j as int));
                assert(v@.subrange(0, j + 1 as int).last() == v@[j as int]);
                lemma_sum_clamped_nonneg(v@[j as int].api_response.series@[0].data@, hours as int);
                lemma_sum_clamped_bound(v@[j as int].api_response.series@[0].data@, hours as int);
                assert((j as int) * (hours as int) * 0x7fff_ffff_ffff_ffff + (hours as int)
                    * 0x7fff_ffff_ffff_ffff == (j + 1 as int) * (hours as int)
                    * 0x7fff_ffff_ffff_ffff) by (nonlinear_arith);
                assert((j + 1 as int) * (hours as int) <= n * hours) by (nonlinear_arith)
                    requires
                        0 <= j + 1 <= n as int,
                        hours >= 0,
                ;
                assert((j + 1 as int) * (hours as int) * 0x7fff_ffff_ffff_ffff
                    <= 0xffff_ffff_ffff_ffff * 0x7fff_ffff_ffff_ffff) by (nonlinear_arith)
                    requires
                        0 <= (j + 1 as int) * (hours as int) <= 0xffff_ffff_ffff_ffff,
                ;
            }
            acc = acc + t;
            j += 1;
        }
        proof {
            assert(v@.subrange(0, n as int) =~= v@);
        }
        acc
    }

    /// The portfolio's windowed average: the windowed total over the window
    /// length, as an exact ratio, numerator and denominator untouched.
    pub fn average_over_n_hours(&self, hours: usize) -> (r: Rat)
        requires
            forall|i: int| 0 <= i < self.sources@.len() ==> self.sources@[i].wf(),
            self.sources@.len() * hours <= 0xffff_ffff_ffff_ffff,
        ensures
            r.num == portfolio_sum_clamped(self.sources@, hours as int),
            r.den == hours as int,
    {
        let total = self.total_over_n_hours(hours);
        Rat { num: total, den: hours as i128 }
    }
}

} // verus!
