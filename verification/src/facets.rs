//! The facet engine: counts the distinct canonical text forms a field takes
//! across a record collection.

use vstd::prelude::*;
use vstd::string::StringExecFns;

use vstd::arithmetic::div_mod::lemma_div_is_ordered;
use vstd::arithmetic::div_mod::lemma_div_multiples_vanish;

use crate::text::str_eq;
use crate::value::canon_text;
use crate::value::extract_field_text;
use crate::value::lookup_field;
use crate::value::obj_entries;
use crate::value::rec_lookup;
use crate::value::BiblioRecord;

verus! {

/// One distinct canonical value of a field, with how often it occurs.
/// `percentage_bp` is the share of `count` in the field's `total_values`, in
/// hundredths of a percent (basis points), rounded down.
#[derive(Debug, Clone)]
pub struct FacetValue {
    pub value: String,
    pub count: usize,
    pub percentage_bp: usize,
}

/// The facet analysis of one field: how many records carry it, how many
/// bind it to null, and its distinct values ranked by descending count.
#[derive(Debug, Clone)]
pub struct FacetAnalysis {
    pub field_name: String,
    pub total_values: usize,
    pub unique_values: usize,
    pub null_count: usize,
    pub values: Vec<FacetValue>,
}

// ---------------------------------------------------------------------------
// What one record contributes.
// ---------------------------------------------------------------------------
/// The record is an object that has the field (bound to anything).
pub open spec fn rec_present(r: BiblioRecord, f: Seq<char>) -> bool {
    rec_lookup(r, f) is Some
}

/// The record is an object that binds the field to an explicit null.
pub open spec fn rec_null(r: BiblioRecord, f: Seq<char>) -> bool {
    rec_lookup(r, f) == Option::Some(BiblioRecord::Null)
}

/// The canonical text the record contributes for the field: its value's
/// canonical form, unless the field is absent or null.
pub open spec fn rec_canon(r: BiblioRecord, f: Seq<char>) -> Option<Seq<char>> {
    match rec_lookup(r, f) {
        Option::Some(v) => if v == BiblioRecord::Null {
            Option::None
        } else {
            Option::Some(canon_text(v))
        },
        Option::None => Option::None,
    }
}

// ---------------------------------------------------------------------------
// Counts over the whole collection.
// ---------------------------------------------------------------------------
/// In how many records the field is present (null or not).
pub open spec fn present_count(records: Seq<BiblioRecord>, f: Seq<char>) -> int
    decreases records.len(),
{
    if records.len() == 0 {
        0
    } else {
        present_count(records.drop_last(), f) + (if rec_present(records.last(), f) {
            1int
        } else {
            0int
        })
    }
}

/// In how many records the field is bound to an explicit null.
pub open spec fn nullpresent_count(records: Seq<BiblioRecord>, f: Seq<char>) -> int
    decreases records.len(),
{
    if records.len() == 0 {
        0
    } else {
        nullpresent_count(records.drop_last(), f) + (if rec_null(records.last(), f) {
            1int
        } else {
            0int
        })
    }
}

/// In how many records the field's canonical text is exactly `t`.
pub open spec fn vcount(records: Seq<BiblioRecord>, f: Seq<char>, t: Seq<char>) -> int
    decreases records.len(),
{
    if records.len() == 0 {
        0
    } else {
        vcount(records.drop_last(), f, t) + (if rec_canon(records.last(), f) == Option::Some(t) {
            1int
        } else {
            0int
        })
    }
}

pub proof fn lemma_present_bounds(records: Seq<BiblioRecord>, f: Seq<char>)
    ensures
        0 <= nullpresent_count(records, f) <= present_count(records, f) <= records.len(),
    decreases records.len(),
{
    if records.len() > 0 {
        lemma_present_bounds(records.drop_last(), f);
    }
}

pub proof fn lemma_vcount_le_present(records: Seq<BiblioRecord>, f: Seq<char>, t: Seq<char>)
    ensures
        0 <= vcount(records, f, t),
        vcount(records, f, t) + nullpresent_count(records, f) <= present_count(records, f),
    decreases records.len(),
{
    if records.len() > 0 {
        lemma_vcount_le_present(records.drop_last(), f, t);
    }
}

// ---------------------------------------------------------------------------
// Percentages and sums.
// ---------------------------------------------------------------------------
/// `count` as a share of `total`, in basis points, rounded down; 0 when
/// `total` is 0.
pub open spec fn pct_bp(count: int, total: int) -> int {
    if total <= 0 {
        0
    } else {
        count * 10000 / total
    }
}

/// Computes a count's share of a total in basis points.
pub fn percent_basis_points(count: usize, total: usize) -> (r: usize)
    requires
        count <= total,
    ensures
        r == pct_bp(count as int, total as int),
        r <= 10000,
{
    if total == 0 {
        0
    } else {
        let num = (count as u128) * 10000;
        let q = num / (total as u128);
        proof {
            lemma_div_is_ordered(
                count as int * 10000,
                total as int * 10000,
                total as int,
            );
            lemma_div_multiples_vanish(10000, total as int);
        }
        q as usize
    }
}

/// The sum of the counts in a frequency table.
pub open spec fn sum_table(s: Seq<(String, usize)>) -> int
    decreases s.len(),
{
    if s.len() == 0 {
        0
    } else {
        sum_table(s.drop_last()) + s.last().1
    }
}

/// The sum of the counts of a facet value list.
pub open spec fn sum_fv(s: Seq<FacetValue>) -> int
    decreases s.len(),
{
    if s.len() == 0 {
        0
    } else {
        sum_fv(s.drop_last()) + s.last().count
    }
}

pub proof fn lemma_sum_table_update(s: Seq<(String, usize)>, j: int, x: (String, usize))
    requires
        0 <= j < s.len(),
    ensures
        sum_table(s.update(j, x)) == sum_table(s) - s[j].1 + x.1,
    decreases s.len(),
{
    if j == s.len() - 1 {
        assert(s.update(j, x).drop_last() =~= s.drop_last());
        assert(s.update(j, x).last() == x);
    } else {
        assert(s.update(j, x).drop_last() =~= s.drop_last().update(j, x));
        assert(s.update(j, x).last() == s.last());
        lemma_sum_table_update(s.drop_last(), j, x);
    }
}

pub proof fn lemma_sum_table_push(s: Seq<(String, usize)>, x: (String, usize))
    ensures
        sum_table(s.push(x)) == sum_table(s) + x.1,
{
    assert(s.push(x).drop_last() =~= s);
    assert(s.push(x).last() == x);
}

pub proof fn lemma_sum_fv_insert(s: Seq<FacetValue>, j: int, x: FacetValue)
    requires
        0 <= j <= s.len(),
    ensures
        sum_fv(s.insert(j, x)) == sum_fv(s) + x.count,
    decreases s.len(),
{
    if j == s.len() {
        assert(s.insert(j, x) =~= s.push(x));
        assert(s.push(x).drop_last() =~= s);
    } else {
        s.insert_ensures(j, x);
        assert(s.insert(j, x).drop_last() =~= s.drop_last().insert(j, x));
        assert(s.insert(j, x).last() == s.last());
        lemma_sum_fv_insert(s.drop_last(), j, x);
    }
}

// ---------------------------------------------------------------------------
// The contract of the facet engine.
// ---------------------------------------------------------------------------
/// What a correct list of facet values looks like: each entry counts one
/// distinct canonical text, every text that occurs is listed, percentages
/// follow from the counts, and the order is by descending count.
pub open spec fn facet_values_ok(
    records: Seq<BiblioRecord>,
    f: Seq<char>,
    total: int,
    vals: Seq<FacetValue>,
) -> bool {
    &&& forall|i: int|
        0 <= i < vals.len() ==> (#[trigger] vals[i]).count == vcount(records, f, vals[i].value@)
    &&& forall|i: int| 0 <= i < vals.len() ==> (#[trigger] vals[i]).count >= 1
    &&& forall|i: int|
        0 <= i < vals.len() ==> (#[trigger] vals[i]).percentage_bp == pct_bp(
            vals[i].count as int,
            total,
        )
    &&& forall|i: int, j: int|
        0 <= i < j < vals.len() ==> (#[trigger] vals[i]).value@ != (#[trigger] vals[j]).value@
    &&& forall|t: Seq<char>|
        vcount(records, f, t) > 0 ==> exists|i: int|
            0 <= i < vals.len() && (#[trigger] vals[i]).value@ == t
    &&& forall|i: int, j: int|
        0 <= i < j < vals.len() ==> (#[trigger] vals[i]).count >= (#[trigger] vals[j]).count
}

/// The whole contract of `analyze_field_facets`.
pub open spec fn facet_matches(records: Seq<BiblioRecord>, f: Seq<char>, res: FacetAnalysis) -> bool {
    &&& res.field_name@ == f
    &&& res.total_values == present_count(records, f)
    &&& res.null_count == nullpresent_count(records, f)
    &&& res.unique_values == res.values@.len()
    &&& facet_values_ok(records, f, res.total_values as int, res.values@)
    &&& sum_fv(res.values@) + res.null_count == res.total_values
}

/// A property of every element survives inserting an element that has it.
pub proof fn lemma_insert_pointwise<T>(s: Seq<T>, p: int, x: T, pred: spec_fn(T) -> bool)
    requires
        0 <= p <= s.len(),
        forall|i: int| 0 <= i < s.len() ==> #[trigger] pred(s[i]),
        pred(x),
    ensures
        forall|i: int| 0 <= i < s.insert(p, x).len() ==> #[trigger] pred(s.insert(p, x)[i]),
{
    s.insert_ensures(p, x);
    assert forall|i: int| 0 <= i < s.insert(p, x).len() implies #[trigger] pred(
        s.insert(p, x)[i],
    ) by {
        if i < p {
            assert(s.insert(p, x)[i] == s[i]);
        } else if i > p {
            assert(s.insert(p, x)[i] == s[i - 1]);
        }
    }
}

/// A pairwise relation survives inserting an element that relates correctly
/// to what stands before and after the insertion point.
pub proof fn lemma_insert_pairwise<T>(s: Seq<T>, p: int, x: T, rel: spec_fn(T, T) -> bool)
    requires
        0 <= p <= s.len(),
        forall|i: int, j: int| 0 <= i < j < s.len() ==> #[trigger] rel(s[i], s[j]),
        forall|i: int| 0 <= i < p ==> #[trigger] rel(s[i], x),
        forall|i: int| p <= i < s.len() ==> #[trigger] rel(x, s[i]),
    ensures
        forall|i: int, j: int|
            0 <= i < j < s.insert(p, x).len() ==> #[trigger] rel(s.insert(p, x)[i], s.insert(p, x)[j]),
{
    s.insert_ensures(p, x);
    let ins = s.insert(p, x);
    assert forall|i: int, j: int| 0 <= i < j < ins.len() implies #[trigger] rel(
        ins[i],
        ins[j],
    ) by {
        if i < p && j < p {
            assert(ins[i] == s[i] && ins[j] == s[j]);
        } else if i < p && j == p {
            assert(ins[i] == s[i]);
        } else if i == p {
            assert(ins[j] == s[j - 1]);
        } else if j == p {
            assert(ins[i] == s[i]);
        } else if i < p {
            assert(ins[i] == s[i] && ins[j] == s[j - 1]);
        } else {
            assert(ins[i] == s[i - 1] && ins[j] == s[j - 1]);
        }
    }
}

/// One step of building the ranked value list: inserting the `k`-th table
/// entry at its sorted position keeps every invariant of the ranking loop.
#[verifier::rlimit(100)]
#[verifier::spinoff_prover]
proof fn lemma_rank_step(
    records: Seq<BiblioRecord>,
    f: Seq<char>,
    total: int,
    table: Seq<(String, usize)>,
    k: int,
    old_values: Seq<FacetValue>,
    p: int,
    fv: FacetValue,
)
    requires
        0 <= k < table.len(),
        forall|j: int|
            0 <= j < table.len() ==> (#[trigger] table[j]).1 == vcount(records, f, table[j].0@),
        forall|j: int| 0 <= j < table.len() ==> (#[trigger] table[j]).1 >= 1,
        forall|j1: int, j2: int|
            0 <= j1 < j2 < table.len() ==> (#[trigger] table[j1]).0@ != (#[trigger] table[j2]).0@,
        old_values.len() == k,
        forall|i: int|
            0 <= i < old_values.len() ==> (#[trigger] old_values[i]).count == vcount(
                records,
                f,
                old_values[i].value@,
            ),
        forall|i: int| 0 <= i < old_values.len() ==> (#[trigger] old_values[i]).count >= 1,
        forall|i: int|
            0 <= i < old_values.len() ==> (#[trigger] old_values[i]).percentage_bp == pct_bp(
                old_values[i].count as int,
                total,
            ),
        forall|i: int|
            0 <= i < old_values.len() ==> exists|j: int|
                0 <= j < k && (#[trigger] old_values[i]).value@ == (#[trigger] table[j]).0@,
        forall|j: int|
            0 <= j < k ==> exists|i: int|
                0 <= i < old_values.len() && (#[trigger] old_values[i]).value@ == (
                #[trigger] table[j]).0@,
        forall|i: int, j: int|
            0 <= i < j < old_values.len() ==> (#[trigger] old_values[i]).value@ != (
            #[trigger] old_values[j]).value@,
        forall|i: int, j: int|
            0 <= i < j < old_values.len() ==> (#[trigger] old_values[i]).count >= (
            #[trigger] old_values[j]).count,
        sum_fv(old_values) == sum_table(table.take(k)),
        fv.value@ == table[k].0@,
        fv.count == table[k].1,
        fv.percentage_bp == pct_bp(fv.count as int, total),
        0 <= p <= old_values.len(),
        forall|i: int| 0 <= i < p ==> (#[trigger] old_values[i]).count > fv.count,
        p < old_values.len() ==> old_values[p].count <= fv.count,
    ensures
        ({
            let values = old_values.insert(p, fv);
            &&& values.len() == k + 1
            &&& forall|i: int|
                0 <= i < values.len() ==> (#[trigger] values[i]).count == vcount(
                    records,
                    f,
                    values[i].value@,
                )
            &&& forall|i: int| 0 <= i < values.len() ==> (#[trigger] values[i]).count >= 1
            &&& forall|i: int|
                0 <= i < values.len() ==> (#[trigger] values[i]).percentage_bp == pct_bp(
                    values[i].count as int,
                    total,
                )
            &&& forall|i: int|
                0 <= i < values.len() ==> exists|j: int|
                    0 <= j < k + 1 && (#[trigger] values[i]).value@ == (#[trigger] table[j]).0@
            &&& forall|j: int|
                0 <= j < k + 1 ==> exists|i: int|
                    0 <= i < values.len() && (#[trigger] values[i]).value@ == (
                    #[trigger] table[j]).0@
            &&& forall|i: int, j: int|
                0 <= i < j < values.len() ==> (#[trigger] values[i]).value@ != (
                #[trigger] values[j]).value@
            &&& forall|i: int, j: int|
                0 <= i < j < values.len() ==> (#[trigger] values[i]).count >= (
                #[trigger] values[j]).count
            &&& sum_fv(values) == sum_table(table.take(k + 1))
        }),
{
    let values = old_values.insert(p, fv);
    old_values.insert_ensures(p, fv);
    lemma_sum_fv_insert(old_values, p, fv);
    assert(table.take(k + 1).drop_last() =~= table.take(k));
    assert(table.take(k + 1).last() == table[k]);
    assert(values[p] == fv);
    // Per-element facts carry over to the inserted list.
    lemma_insert_pointwise(
        old_values,
        p,
        fv,
        |v: FacetValue| v.count == vcount(records, f, v.value@),
    );
    lemma_insert_pointwise(old_values, p, fv, |v: FacetValue| v.count >= 1);
    lemma_insert_pointwise(
        old_values,
        p,
        fv,
        |v: FacetValue| v.percentage_bp == pct_bp(v.count as int, total),
    );
    lemma_insert_pointwise(
        old_values,
        p,
        fv,
        |v: FacetValue|
            exists|j: int| 0 <= j < k + 1 && v.value@ == (#[trigger] table[j]).0@,
    );
    // The new entry's value is not among the old ones: the table's names are
    // pairwise distinct and the old entries all carry earlier table names.
    assert forall|oi: int| 0 <= oi < old_values.len() implies (#[trigger] old_values[oi]).value@
        != fv.value@ by {
        let oj = choose|j: int| 0 <= j < k && (old_values[oi]).value@ == (#[trigger] table[j]).0@;
        assert(table[oj].0@ != table[k].0@);
    }
    lemma_insert_pairwise(old_values, p, fv, |a: FacetValue, b: FacetValue| a.value@ != b.value@);
    // Before the insertion point the counts are strictly larger; after it
    // they are no larger, since the list was already ranked.
    assert forall|i: int| p <= i < old_values.len() implies fv.count
        >= (#[trigger] old_values[i]).count by {
        if i > p {
            assert(old_values[p].count >= old_values[i].count);
        }
    }
    lemma_insert_pairwise(old_values, p, fv, |a: FacetValue, b: FacetValue| a.count >= b.count);
    // Every earlier table name is still represented.
    assert forall|j: int| 0 <= j < k + 1 implies exists|i: int|
        0 <= i < values.len() && (#[trigger] values[i]).value@ == (#[trigger] table[j]).0@ by {
        if j == k {
            assert(values[p].value@ == table[j].0@);
        } else {
            let oi = choose|i: int|
                0 <= i < old_values.len() && (#[trigger] old_values[i]).value@ == table[j].0@;
            if oi < p {
                assert(values[oi].value@ == table[j].0@);
            } else {
                assert(values[oi + 1].value@ == table[j].0@);
            }
        }
    }
}

fn find_in_table(table: &Vec<(String, usize)>, text: &str) -> (r: Option<usize>)
    ensures
        match r {
            Option::Some(j) => j < table@.len() && table@[j as int].0@ == text@,
            Option::None => forall|j: int| 0 <= j < table@.len() ==> (#[trigger] table@[j]).0@ != text@,
        },
{
    let n = table.len();
    let mut j: usize = 0;
    while j < n
        invariant
            n == table@.len(),
            j <= n,
            forall|k: int| 0 <= k < j ==> (#[trigger] table@[k]).0@ != text@,
        decreases n - j,
    {
        if str_eq(table[j].0.as_str(), text) {
            return Option::Some(j);
        }
        j = j + 1;
    }
    Option::None
}

fn find_insert_pos(values: &Vec<FacetValue>, count: usize) -> (p: usize)
    ensures
        p <= values@.len(),
        forall|i: int| 0 <= i < p ==> (#[trigger] values@[i]).count > count,
        p < values@.len() ==> values@[p as int].count <= count,
{
    let n = values.len();
    let mut p: usize = 0;
    while p < n
        invariant
            n == values@.len(),
            p <= n,
            forall|i: int| 0 <= i < p ==> (#[trigger] values@[i]).count > count,
        decreases n - p,
    {
        if values[p].count <= count {
            return p;
        }
        p = p + 1;
    }
    p
}

/// Turns a finished frequency table into the ranked facet value list.
#[verifier::rlimit(100)]
#[verifier::spinoff_prover]
fn rank_table(
    table: &Vec<(String, usize)>,
    total: usize,
    Ghost(records): Ghost<Seq<BiblioRecord>>,
    Ghost(f): Ghost<Seq<char>>,
) -> (values: Vec<FacetValue>)
    requires
        total == present_count(records, f),
        forall|j: int|
            0 <= j < table@.len() ==> (#[trigger] table@[j]).1 == vcount(records, f, table@[j].0@),
        forall|j: int| 0 <= j < table@.len() ==> (#[trigger] table@[j]).1 >= 1,
        forall|j1: int, j2: int|
            0 <= j1 < j2 < table@.len() ==> (#[trigger] table@[j1]).0@ != (#[trigger] table@[
            j2]).0@,
    ensures
        values@.len() == table@.len(),
        forall|i: int|
            0 <= i < values@.len() ==> (#[trigger] values@[i]).count == vcount(
                records,
                f,
                values@[i].value@,
            ),
        forall|i: int| 0 <= i < values@.len() ==> (#[trigger] values@[i]).count >= 1,
        forall|i: int|
            0 <= i < values@.len() ==> (#[trigger] values@[i]).percentage_bp == pct_bp(
                values@[i].count as int,
                total as int,
            ),
        forall|j: int|
            0 <= j < table@.len() ==> exists|i: int|
                0 <= i < values@.len() && (#[trigger] values@[i]).value@ == (#[trigger] table@[
                j]).0@,
        forall|i: int, j: int|
            0 <= i < j < values@.len() ==> (#[trigger] values@[i]).value@ != (#[trigger] values@[
            j]).value@,
        forall|i: int, j: int|
            0 <= i < j < values@.len() ==> (#[trigger] values@[i]).count >= (#[trigger] values@[
            j]).count,
        sum_fv(values@) == sum_table(table@),
{
    let tl = table.len();
    let mut values: Vec<FacetValue> = Vec::new();
    let mut k: usize = 0;
    proof {
        assert(table@.take(0) =~= Seq::<(String, usize)>::empty());
    }
    while k < tl
        invariant
            tl == table@.len(),
            k <= tl,
            total == present_count(records, f),
            forall|j: int|
                0 <= j < table@.len() ==> (#[trigger] table@[j]).1 == vcount(
                    records,
                    f,
                    table@[j].0@,
                ),
            forall|j: int| 0 <= j < table@.len() ==> (#[trigger] table@[j]).1 >= 1,
            forall|j1: int, j2: int|
                0 <= j1 < j2 < table@.len() ==> (#[trigger] table@[j1]).0@ != (
                #[trigger] table@[j2]).0@,
            values@.len() == k,
            forall|i: int|
                0 <= i < values@.len() ==> (#[trigger] values@[i]).count == vcount(
                    records,
                    f,
                    values@[i].value@,
                ),
            forall|i: int| 0 <= i < values@.len() ==> (#[trigger] values@[i]).count >= 1,
            forall|i: int|
                0 <= i < values@.len() ==> (#[trigger] values@[i]).percentage_bp == pct_bp(
                    values@[i].count as int,
                    total as int,
                ),
            forall|i: int|
                0 <= i < values@.len() ==> exists|j: int|
                    0 <= j < k && (#[trigger] values@[i]).value@ == (#[trigger] table@[j]).0@,
            forall|j: int|
                0 <= j < k ==> exists|i: int|
                    0 <= i < values@.len() && (#[trigger] values@[i]).value@ == (
                    #[trigger] table@[j]).0@,
            forall|i: int, j: int|
                0 <= i < j < values@.len() ==> (#[trigger] values@[i]).value@ != (
                #[trigger] values@[j]).value@,
            forall|i: int, j: int|
                0 <= i < j < values@.len() ==> (#[trigger] values@[i]).count >= (
                #[trigger] values@[j]).count,
            sum_fv(values@) == sum_table(table@.take(k as int)),
        decreases tl - k,
    {
        let count = table[k].1;
        proof {
            lemma_vcount_le_present(records, f, table@[k as int].0@);
            lemma_present_bounds(records, f);
        }
        let bp = percent_basis_points(count, total);
        let name = table[k].0.clone();
        let fv = FacetValue { value: name, count, percentage_bp: bp };
        let p = find_insert_pos(&values, count);
        let ghost old_values = values@;
        values.insert(p, fv);
        proof {
            assert(values@ == old_values.insert(p as int, fv));
            lemma_rank_step(records, f, total as int, table@, k as int, old_values, p as int, fv);
        }
        k = k + 1;
    }
    proof {
        assert(table@.take(tl as int) =~= table@);
    }
    values
}

/// Counts the occurrences of each distinct canonical value of one field
/// across the collection: how many records carry the field at all
/// (`total_values`), how many bind it to null, and the distinct non-null
/// values ranked by descending count. Total: no input is rejected, and every
/// distinct value that occurs is listed exactly once.
#[verifier::rlimit(100)]
pub fn analyze_field_facets(records: &Vec<BiblioRecord>, field_name: &str) -> (res: FacetAnalysis)
    ensures
        facet_matches(records@, field_name@, res),
{
    let n = records.len();
    let ghost f = field_name@;
    let mut total: usize = 0;
    let mut nulls: usize = 0;
    let mut table: Vec<(String, usize)> = Vec::new();
    let mut ri: usize = 0;
    proof {
        assert(records@.take(0) =~= Seq::<BiblioRecord>::empty());
    }
    while ri < n
        invariant
            n == records@.len(),
            f == field_name@,
            ri <= n,
            total == present_count(records@.take(ri as int), f),
            nulls == nullpresent_count(records@.take(ri as int), f),
            nulls <= total <= ri,
            forall|j: int|
                0 <= j < table@.len() ==> (#[trigger] table@[j]).1 == vcount(
                    records@.take(ri as int),
                    f,
                    table@[j].0@,
                ),
            forall|j: int| 0 <= j < table@.len() ==> (#[trigger] table@[j]).1 >= 1,
            forall|j1: int, j2: int|
                0 <= j1 < j2 < table@.len() ==> (#[trigger] table@[j1]).0@ != (
                #[trigger] table@[j2]).0@,
            forall|t: Seq<char>|
                vcount(records@.take(ri as int), f, t) > 0 ==> exists|j: int|
                    0 <= j < table@.len() && (#[trigger] table@[j]).0@ == t,
            sum_table(table@) + nulls == total,
        decreases n - ri,
    {
        let ghost prefix = records@.take(ri as int);
        let ghost prefix1 = records@.take(ri + 1);
        proof {
            assert(prefix1.drop_last() =~= prefix);
            assert(prefix1.last() == records@[ri as int]);
            lemma_present_bounds(prefix, f);
        }
        let r = &records[ri];
        match r {
            BiblioRecord::Object(entries) => {
                proof {
                    assert(obj_entries(records@[ri as int]) == entries@);
                }
                match lookup_field(entries, field_name) {
                    Option::Some(v) => {
                        total = total + 1;
                        match v {
                            BiblioRecord::Null => {
                                nulls = nulls + 1;
                                proof {
                                    assert(rec_null(prefix1.last(), f));
                                    assert(rec_canon(prefix1.last(), f) is None);
                                    assert forall|t: Seq<char>|
                                        vcount(prefix1, f, t) == vcount(prefix, f, t) by {}
                                }
                            },
                            _ => {
                                proof {
                                    assert(!rec_null(prefix1.last(), f));
                                    assert(rec_canon(prefix1.last(), f) == Option::Some(
                                        canon_text(*v),
                                    ));
                                }
                                let text = extract_field_text(v);
                                match find_in_table(&table, text.as_str()) {
                                    Option::Some(j) => {
                                        let ghost old_table = table@;
                                        let c = table[j].1;
                                        proof {
                                            lemma_vcount_le_present(prefix, f, text@);
                                        }
                                        let name = table[j].0.clone();
                                        table.set(j, (name, c + 1));
                                        proof {
                                            lemma_sum_table_update(
                                                old_table,
                                                j as int,
                                                table@[j as int],
                                            );
                                            assert forall|t: Seq<char>|
                                                vcount(prefix1, f, t) == vcount(prefix, f, t) + (
                                                if t == text@ {
                                                    1int
                                                } else {
                                                    0int
                                                }) by {}
                                            assert forall|jj: int|
                                                0 <= jj < table@.len() implies (
                                            #[trigger] table@[jj]).1 == vcount(
                                                prefix1,
                                                f,
                                                table@[jj].0@,
                                            ) by {
                                                if jj == j {
                                                    assert(table@[jj].0@ == text@);
                                                    assert(vcount(prefix1, f, text@) == vcount(
                                                        prefix,
                                                        f,
                                                        text@,
                                                    ) + 1);
                                                    assert(old_table[j as int].1 == vcount(
                                                        prefix,
                                                        f,
                                                        text@,
                                                    ));
                                                } else {
                                                    assert(table@[jj] == old_table[jj]);
                                                    assert(old_table[jj].0@ != text@);
                                                }
                                            }
                                            assert forall|t: Seq<char>|
                                                vcount(prefix1, f, t) > 0 implies exists|j2: int|
                                                0 <= j2 < table@.len() && (#[trigger] table@[
                                                j2]).0@ == t by {
                                                if t == text@ {
                                                    assert(table@[j as int].0@ == t);
                                                } else {
                                                    assert(vcount(prefix, f, t) > 0);
                                                    let oj = choose|j2: int|
                                                        0 <= j2 < old_table.len() && (
                                                        #[trigger] old_table[j2]).0@ == t;
                                                    assert(table@[oj].0@ == t);
                                                }
                                            }
                                        }
                                    },
                                    Option::None => {
                                        let ghost old_table = table@;
                                        let ghost txt = text@;
                                        table.push((text, 1));
                                        proof {
                                            lemma_sum_table_push(old_table, table@.last());
                                            assert(table@ == old_table.push(table@.last()));
                                            assert(table@.last().0@ == txt);
                                            lemma_vcount_le_present(prefix, f, txt);
                                            assert forall|t: Seq<char>|
                                                vcount(prefix1, f, t) == vcount(prefix, f, t) + (
                                                if t == txt {
                                                    1int
                                                } else {
                                                    0int
                                                }) by {}
                                            assert forall|jj: int|
                                                0 <= jj < table@.len() implies (
                                            #[trigger] table@[jj]).1 == vcount(
                                                prefix1,
                                                f,
                                                table@[jj].0@,
                                            ) by {
                                                if jj < old_table.len() {
                                                    assert(table@[jj] == old_table[jj]);
                                                    assert(old_table[jj].0@ != txt);
                                                } else {
                                                    assert(table@[jj].0@ == txt);
                                                    assert(vcount(prefix, f, txt) == 0);
                                                    assert(vcount(prefix1, f, txt) == 1);
                                                }
                                            }
                                            assert forall|t: Seq<char>|
                                                vcount(prefix1, f, t) > 0 implies exists|j2: int|
                                                0 <= j2 < table@.len() && (#[trigger] table@[
                                                j2]).0@ == t by {
                                                if t == txt {
                                                    assert(table@[old_table.len() as int].0@ == t);
                                                } else {
                                                    assert(vcount(prefix, f, t) > 0);
                                                    let oj = choose|j2: int|
                                                        0 <= j2 < old_table.len() && (
                                                        #[trigger] old_table[j2]).0@ == t;
                                                    assert(table@[oj].0@ == t);
                                                }
                                            }
                                        }
                                    },
                                }
                            },
                        }
                    },
                    Option::None => {
                        proof {
                            assert(!rec_present(prefix1.last(), f));
                            assert(rec_canon(prefix1.last(), f) is None);
                            assert forall|t: Seq<char>|
                                vcount(prefix1, f, t) == vcount(prefix, f, t) by {}
                        }
                    },
                }
            },
            _ => {
                proof {
                    assert(obj_entries(records@[ri as int]) =~= Seq::<(String, BiblioRecord)>::empty());
                    assert(!rec_present(prefix1.last(), f));
                    assert(rec_canon(prefix1.last(), f) is None);
                    assert forall|t: Seq<char>| vcount(prefix1, f, t) == vcount(prefix, f, t) by {}
                }
            },
        }
        ri = ri + 1;
    }
    proof {
        assert(records@.take(n as int) =~= records@);
    }
    // Rank the table by descending count.
    let values = rank_table(&table, total, Ghost(records@), Ghost(f));
    let unique = values.len();
    let fname = String::from_str(field_name);
    FacetAnalysis {
        field_name: fname,
        total_values: total,
        unique_values: unique,
        null_count: nulls,
        values,
    }
}

} // verus!
