use vstd::prelude::*;

use crate::roster::{strictly_increasing, Roster};

verus! {

/// `s` with each value kept at its first place only.
pub open spec fn dedup_spec(s: Seq<i32>) -> Seq<i32>
    decreases s.len(),
{
    if s.len() == 0 {
        s
    } else {
        let p = dedup_spec(s.drop_last());
        if p.contains(s.last()) {
            p
        } else {
            p.push(s.last())
        }
    }
}

/// Keeps the first occurrence of each value, in order.
pub fn dedup(v: &mut Vec<i32>)
    ensures
        final(v)@ == dedup_spec(old(v)@),
{
    let mut r: Vec<i32> = Vec::new();
    let mut i: usize = 0;
    while i < v.len()
        invariant
            i <= v@.len(),
            r@ == dedup_spec(v@.subrange(0, i as int)),
        decreases v@.len() - i,
    {
        let x = v[i];
        assert(v@.subrange(0, i + 1).drop_last() =~= v@.subrange(0, i as int));
        let mut seen = false;
        let mut k: usize = 0;
        while k < r.len()
            invariant
                k <= r@.len(),
                seen == (exists|j: int| 0 <= j < k && r@[j] == x),
            decreases r@.len() - k,
        {
            if r[k] == x {
                seen = true;
            }
            k = k + 1;
        }
        if !seen {
            r.push(x);
        }
        i = i + 1;
    }
    assert(v@.subrange(0, v@.len() as int) =~= v@);
    *v = r;
}

/// `r` is where the excerpt around day `d` centres: the position of `d`
/// where it has an entry; else that of the last earlier day; else the first.
pub open spec fn anchor_ok(keys: Seq<i32>, d: i32, r: int) -> bool {
    &&& 0 <= r < keys.len()
    &&& keys.contains(d) ==> keys[r] == d
    &&& !keys.contains(d) && keys[0] < d ==> keys[r] < d && (r + 1 == keys.len() || keys[r + 1]
        > d)
    &&& !keys.contains(d) && keys[0] > d ==> r == 0
}

pub open spec fn anchor(keys: Seq<i32>, d: i32) -> int {
    choose|r: int| anchor_ok(keys, d, r)
}

/// The days within `range` places of the anchor of `d`.
pub open spec fn window(keys: Seq<i32>, d: i32, range: int) -> Seq<i32> {
    let a = anchor(keys, d);
    let lo = if a - range < 0 {
        0
    } else {
        a - range
    };
    let hi = if a + range + 1 > keys.len() {
        keys.len() as int
    } else {
        a + range + 1
    };
    keys.subrange(lo, hi)
}

/// The windows of all of `ds`, one after the other.
pub open spec fn windows(keys: Seq<i32>, ds: Seq<i32>, range: int) -> Seq<i32>
    decreases ds.len(),
{
    if ds.len() == 0 {
        Seq::empty()
    } else {
        windows(keys, ds.drop_last(), range) + window(keys, ds.last(), range)
    }
}

/// The excerpt of `keys` around `ds`: the days within `range` places of
/// each, each day once, those among `ds` highlighted.
pub open spec fn excerpt_of(keys: Seq<i32>, ds: Seq<i32>, range: int) -> Seq<ExcerptLine> {
    if keys.len() == 0 {
        Seq::empty()
    } else {
        dedup_spec(windows(keys, ds, range)).map_values(
            |d: i32| ExcerptLine { day: d, highlighted: ds.contains(d) },
        )
    }
}

/// One line of an excerpt of the roster: a day, and whether it is one of the
/// days that the excerpt was asked around.
#[derive(PartialEq, Eq, Structural, Clone, Copy, Debug)]
pub struct ExcerptLine {
    pub day: i32,
    pub highlighted: bool,
}

proof fn lemma_anchor_unique(keys: Seq<i32>, d: i32, r1: int, r2: int)
    requires
        strictly_increasing(keys),
        anchor_ok(keys, d, r1),
        anchor_ok(keys, d, r2),
    ensures
        r1 == r2,
{
    if r1 != r2 {
        let (a, b) = if r1 < r2 {
            (r1, r2)
        } else {
            (r2, r1)
        };
        assert(keys[a] < keys[b]);
        if keys.contains(d) {
        } else if keys[0] < d {
            if a + 1 < b {
                assert(keys[a + 1] < keys[b]);
            }
        } else {
            let j = choose|j: int| 0 <= j < keys.len() && keys[j] == d;
            assert(keys[0] != d);
        }
    }
}

/// The position where the excerpt around day `d` centres.
fn anchor_index(keys: &Vec<i32>, d: i32) -> (r: usize)
    requires
        strictly_increasing(keys@),
        keys@.len() > 0,
    ensures
        r < keys@.len(),
        r as int == anchor(keys@, d),
{
    let mut i: usize = 0;
    while i < keys.len() && keys[i] < d
        invariant
            i <= keys@.len(),
            forall|k: int| 0 <= k < i ==> keys@[k] < d,
        decreases keys@.len() - i,
    {
        i = i + 1;
    }
    let found = i < keys.len() && keys[i] == d;
    let r: usize = if found {
        i
    } else if i > 0 {
        i - 1
    } else {
        0
    };
    proof {
        assert forall|k: int| i <= k < keys@.len() implies keys@[k] >= d by {
            if k > i {
                assert(keys@[i as int] < keys@[k]);
            }
        }
        if !found {
            assert forall|k: int| 0 <= k < keys@.len() implies keys@[k] != d by {
                if k > i {
                    assert(keys@[i as int] < keys@[k]);
                }
            }
            if keys@[0] == d {
                assert(keys@.contains(d));
            }
        }
        if found {
            assert(keys@.contains(d));
        }
        assert(anchor_ok(keys@, d, r as int));
        lemma_anchor_unique(keys@, d, r as int, anchor(keys@, d));
    }
    r
}

/// The days of `table` around each of `dates`, `range` places on either side,
/// in the order of `dates`, each day once; those among `dates` highlighted.
/// Empty where either the table or `dates` is.
pub fn print_around_date(table: &Roster, range: usize, dates: &Vec<i32>) -> (r: Vec<ExcerptLine>)
    requires
        table.wf(),
    ensures
        r@ == excerpt_of(table.days(), dates@, range as int),
        table.days().len() == 0 ==> r@.len() == 0,
        table.days().len() > 0 ==> {
            let days = dedup_spec(windows(table.days(), dates@, range as int));
            &&& r@.len() == days.len()
            &&& forall|k: int|
                0 <= k < r@.len() ==> #[trigger] r@[k] == (ExcerptLine {
                    day: days[k],
                    highlighted: dates@.contains(days[k]),
                })
        },
{
    let mut out: Vec<ExcerptLine> = Vec::new();
    if table.is_empty() {
        return out;
    }
    if dates.len() == 0 {
        assert(dedup_spec(windows(table.days(), dates@, range as int)).len() == 0);
        assert(out@ =~= excerpt_of(table.days(), dates@, range as int));
        return out;
    }
    let keys = table.keys_sorted();
    let n = keys.len();
    let mut picked: Vec<i32> = Vec::new();
    let mut i: usize = 0;
    while i < dates.len()
        invariant
            keys@ == table.days(),
            strictly_increasing(keys@),
            n == keys@.len(),
            n > 0,
            i <= dates@.len(),
            picked@ == windows(keys@, dates@.subrange(0, i as int), range as int),
        decreases dates@.len() - i,
    {
        let a = anchor_index(&keys, dates[i]);
        let lo: usize = if a < range {
            0
        } else {
            a - range
        };
        let hi: usize = if range >= n - a {
            n
        } else {
            a + range + 1
        };
        let ghost before = picked@;
        let mut k: usize = lo;
        while k < hi
            invariant
                lo <= k <= hi <= n,
                n == keys@.len(),
                picked@ == before + keys@.subrange(lo as int, k as int),
            decreases hi - k,
        {
            picked.push(keys[k]);
            k = k + 1;
            assert(picked@ =~= before + keys@.subrange(lo as int, k as int));
        }
        assert(dates@.subrange(0, i + 1).drop_last() =~= dates@.subrange(0, i as int));
        assert(keys@.subrange(lo as int, hi as int) == window(keys@, dates@[i as int], range as int));
        i = i + 1;
    }
    assert(dates@.subrange(0, dates@.len() as int) =~= dates@);
    dedup(&mut picked);
    let mut j: usize = 0;
    while j < picked.len()
        invariant
            j <= picked@.len(),
            out@.len() == j,
            forall|k: int|
                0 <= k < j ==> #[trigger] out@[k] == (ExcerptLine {
                    day: picked@[k],
                    highlighted: dates@.contains(picked@[k]),
                }),
        decreases picked@.len() - j,
    {
        let day = picked[j];
        let mut hit = false;
        let mut k: usize = 0;
        while k < dates.len()
            invariant
                k <= dates@.len(),
                hit == (exists|m: int| 0 <= m < k && dates@[m] == day),
            decreases dates@.len() - k,
        {
            if dates[k] == day {
                hit = true;
            }
            k = k + 1;
        }
        out.push(ExcerptLine { day, highlighted: hit });
        j = j + 1;
    }
    assert(out@ =~= excerpt_of(table.days(), dates@, range as int));
    out
}

} // verus!
