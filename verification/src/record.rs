//! The row mapper and the record builder.
//!
//! A row is an ordered list of named columns.  `map_row` turns it into a
//! generic object keyed by column name, normalizing each value and degrading
//! a failed column to `Null` (partial data beats no data); a duplicate name
//! overwrites the earlier entry in place.  `build_record` wraps the mapped
//! rows and a capture timestamp into the one record a poll tick emits.

use vstd::prelude::*;
use crate::calendar::Timestamp;
use crate::value::GenericValue;
use crate::value::NativeValue;
use crate::value::norm_err;
use crate::value::norm_ok;
use crate::value::normalize;

verus! {

/// One named column of a result row.
pub struct Column {
    pub name: String,
    pub value: NativeValue,
}

pub open spec fn col_model(c: Column) -> (Seq<char>, NativeValue) {
    (c.name@, c.value)
}

pub open spec fn cols_model(cs: Seq<Column>) -> Seq<(Seq<char>, NativeValue)> {
    cs.map_values(|c: Column| col_model(c))
}

pub open spec fn rows_model(rows: Seq<Vec<Column>>) -> Seq<Seq<(Seq<char>, NativeValue)>> {
    rows.map_values(|r: Vec<Column>| cols_model(r@))
}

/// Index of the first entry with this key, or -1.
pub open spec fn find_key<V>(s: Seq<(Seq<char>, V)>, k: Seq<char>) -> int
    decreases s.len(),
{
    if s.len() == 0 {
        -1
    } else if s[0].0 == k {
        0
    } else {
        let r = find_key(s.drop_first(), k);
        if r == -1 {
            -1
        } else {
            r + 1
        }
    }
}

pub open spec fn has_key<V>(s: Seq<(Seq<char>, V)>, k: Seq<char>) -> bool {
    exists|i: int| 0 <= i < s.len() && s[i].0 == k
}

pub proof fn lemma_find_key_props<V>(s: Seq<(Seq<char>, V)>, k: Seq<char>)
    ensures
        -1 <= find_key(s, k) < s.len(),
        find_key(s, k) >= 0 ==> s[find_key(s, k)].0 == k,
        find_key(s, k) >= 0 ==> forall|j: int| 0 <= j < find_key(s, k) ==> s[j].0 != k,
        find_key(s, k) == -1 ==> forall|j: int| 0 <= j < s.len() ==> s[j].0 != k,
    decreases s.len(),
{
    if s.len() > 0 && s[0].0 != k {
        lemma_find_key_props(s.drop_first(), k);
        assert(forall|j: int| 1 <= j < s.len() ==> s[j] == s.drop_first()[j - 1]);
    }
}

/// Insert or overwrite: a present key keeps its position, a fresh key is
/// appended.
pub open spec fn upsert<V>(s: Seq<(Seq<char>, V)>, k: Seq<char>, v: V) -> Seq<(Seq<char>, V)> {
    let i = find_key(s, k);
    if i == -1 {
        s.push((k, v))
    } else {
        s.update(i, (k, v))
    }
}

/// The keyed entries a row maps to: one entry per distinct column name, in
/// first-occurrence order, each holding the value of the last column with
/// that name.
pub open spec fn row_model(cols: Seq<(Seq<char>, NativeValue)>) -> Seq<(Seq<char>, NativeValue)>
    decreases cols.len(),
{
    if cols.len() == 0 {
        Seq::empty()
    } else {
        upsert(row_model(cols.drop_last()), cols.last().0, cols.last().1)
    }
}

/// The mapped entry for one native value: its normalized form, or `Null`
/// when normalization fails.
pub open spec fn norm_or_null(nv: NativeValue, gv: GenericValue) -> bool {
    if norm_err(nv) is None {
        norm_ok(nv, gv)
    } else {
        gv == GenericValue::Null
    }
}

/// The built entries realize the keyed model: same length and order, keys
/// equal, every value normalized or degraded to `Null`.
pub open spec fn object_matches(
    entries: Seq<(String, GenericValue)>,
    model: Seq<(Seq<char>, NativeValue)>,
) -> bool {
    entries.len() == model.len() && forall|i: int|
        0 <= i < entries.len() ==> entries[i].0@ == model[i].0 && norm_or_null(
            model[i].1,
            entries[i].1,
        )
}

pub open spec fn row_object_matches(v: GenericValue, cols: Seq<(Seq<char>, NativeValue)>) -> bool {
    v matches GenericValue::Object(entries) && object_matches(entries@, row_model(cols))
}

fn find_entry(entries: &Vec<(String, GenericValue)>, key: &String) -> (r: Option<usize>)
    ensures
        r matches Some(j) ==> j < entries@.len() && entries@[j as int].0@ == key@ && forall|q: int|
            0 <= q < j ==> entries@[q].0@ != key@,
        r is None ==> forall|q: int| 0 <= q < entries@.len() ==> entries@[q].0@ != key@,
{
    let mut j: usize = 0;
    while j < entries.len()
        invariant
            j <= entries@.len(),
            forall|q: int| 0 <= q < j ==> entries@[q].0@ != key@,
        decreases entries@.len() - j,
    {
        if entries[j].0 == *key {
            return Some(j);
        }
        j = j + 1;
    }
    None
}

/// Map one row into a generic object: one entry per distinct column name
/// (used verbatim, last write wins), each value normalized per `normalize`
/// with a failed column degraded to `Null`.
pub fn map_row(cols: &Vec<Column>) -> (r: GenericValue)
    ensures
        row_object_matches(r, cols_model(cols@)),
{
    let mut entries: Vec<(String, GenericValue)> = Vec::new();
    let mut i: usize = 0;
    while i < cols.len()
        invariant
            i <= cols@.len(),
            object_matches(entries@, row_model(cols_model(cols@.subrange(0, i as int)))),
        decreases cols@.len() - i,
    {
        let ghost prefix = cols_model(cols@.subrange(0, i as int));
        let ghost model = row_model(prefix);
        let col = &cols[i];
        let gv = match normalize(col.name.as_str(), &col.value) {
            Ok(v) => v,
            Err(_) => GenericValue::Null,
        };
        let slot = find_entry(&entries, &col.name);
        proof {
            lemma_find_key_props(model, col.name@);
        }
        match slot {
            Some(j) => {
                proof {
                    assert(find_key(model, col.name@) == j as int) by {
                        lemma_find_key_props(model, col.name@);
                        assert(model[j as int].0 == entries@[j as int].0@);
                        assert(forall|q: int| 0 <= q < j ==> model[q].0 == entries@[q].0@);
                    }
                }
                entries.set(j, (col.name.clone(), gv));
            },
            None => {
                entries.push((col.name.clone(), gv));
            },
        }
        proof {
            let next = cols_model(cols@.subrange(0, i + 1 as int));
            assert(next.drop_last() =~= prefix);
            assert(next.last() == (col.name@, col.value));
            assert(row_model(next) == upsert(model, col.name@, col.value));
            assert(object_matches(entries@, row_model(next)));
        }
        i = i + 1;
    }
    proof {
        assert(cols@.subrange(0, cols@.len() as int) =~= cols@);
    }
    GenericValue::Object(entries)
}

/// Law: the keys of the mapped entries are exactly the column names.
pub proof fn lemma_row_model_keys(cols: Seq<(Seq<char>, NativeValue)>, k: Seq<char>)
    ensures
        has_key(row_model(cols), k) <==> has_key(cols, k),
    decreases cols.len(),
{
    if cols.len() > 0 {
        let dl = cols.drop_last();
        lemma_row_model_keys(dl, k);
        let m = row_model(dl);
        let rm = row_model(cols);
        let k0 = cols.last().0;
        let v0 = cols.last().1;
        lemma_find_key_props(m, k0);
        let fi = find_key(m, k0);
        assert(rm == upsert(m, k0, v0));
        // `cols` has the key iff `dl` has it or it is the last column's.
        assert(has_key(cols, k) <==> has_key(dl, k) || k == k0) by {
            if has_key(dl, k) {
                let i = choose|i: int| 0 <= i < dl.len() && dl[i].0 == k;
                assert(cols[i].0 == k);
            }
            if k == k0 {
                assert(cols[cols.len() - 1].0 == k);
            }
            if has_key(cols, k) {
                let i = choose|i: int| 0 <= i < cols.len() && cols[i].0 == k;
                if i < cols.len() - 1 {
                    assert(dl[i].0 == k);
                }
            }
        }
        // The upsert result has the key iff `m` has it or it is `k0`.
        assert(has_key(rm, k) <==> has_key(m, k) || k == k0) by {
            if fi == -1 {
                assert(rm == m.push((k0, v0)));
                if has_key(m, k) {
                    let i = choose|i: int| 0 <= i < m.len() && m[i].0 == k;
                    assert(rm[i].0 == k);
                }
                if k == k0 {
                    assert(rm[m.len() as int].0 == k);
                }
                if has_key(rm, k) {
                    let i = choose|i: int| 0 <= i < rm.len() && rm[i].0 == k;
                    if i < m.len() {
                        assert(m[i].0 == k);
                    }
                }
            } else {
                assert(rm == m.update(fi, (k0, v0)));
                assert(m[fi].0 == k0);
                if has_key(m, k) {
                    let i = choose|i: int| 0 <= i < m.len() && m[i].0 == k;
                    if i == fi {
                        assert(rm[fi].0 == k0);
                        assert(m[fi].0 == k);
                    } else {
                        assert(rm[i].0 == k);
                    }
                }
                if k == k0 {
                    assert(rm[fi].0 == k);
                }
                if has_key(rm, k) {
                    let i = choose|i: int| 0 <= i < rm.len() && rm[i].0 == k;
                    if i == fi {
                        assert(m[fi].0 == k0);
                    } else {
                        assert(m[i].0 == k);
                    }
                }
            }
        }
    }
}

/// Law: mapping never invents entries; a row yields at most one entry per
/// column, so with duplicate names the object is strictly smaller.
pub proof fn lemma_row_entry_count_le(cols: Seq<(Seq<char>, NativeValue)>)
    ensures
        row_model(cols).len() <= cols.len(),
    decreases cols.len(),
{
    if cols.len() > 0 {
        let dl = cols.drop_last();
        lemma_row_entry_count_le(dl);
        lemma_find_key_props(row_model(dl), cols.last().0);
    }
}

pub open spec fn distinct_keys(cols: Seq<(Seq<char>, NativeValue)>) -> bool {
    forall|i: int, j: int| 0 <= i < j < cols.len() ==> cols[i].0 != cols[j].0
}

/// Law (row mapper invariant): a row with N distinctly named columns always
/// yields exactly N entries, whatever each column's normalization outcome.
/// With duplicate names the later column overwrites the earlier entry, so
/// the count is the number of distinct names instead.
pub proof fn lemma_row_entry_count(cols: Seq<(Seq<char>, NativeValue)>)
    requires
        distinct_keys(cols),
    ensures
        row_model(cols).len() == cols.len(),
    decreases cols.len(),
{
    if cols.len() > 0 {
        let dl = cols.drop_last();
        let k0 = cols.last().0;
        assert(distinct_keys(dl)) by {
            assert(forall|i: int| 0 <= i < dl.len() ==> dl[i] == cols[i]);
        }
        lemma_row_entry_count(dl);
        lemma_row_model_keys(dl, k0);
        assert(!has_key(dl, k0)) by {
            assert(forall|i: int| 0 <= i < dl.len() ==> cols[i].0 != k0);
            assert(forall|i: int| 0 <= i < dl.len() ==> dl[i] == cols[i]);
        }
        lemma_find_key_props(row_model(dl), k0);
        if find_key(row_model(dl), k0) >= 0 {
            assert(has_key(row_model(dl), k0));
        }
    }
}

/// Law (object invariant): the mapped entries of a row are keyed uniquely,
/// whatever the column names were.
pub proof fn lemma_row_model_distinct(cols: Seq<(Seq<char>, NativeValue)>)
    ensures
        distinct_keys(row_model(cols)),
    decreases cols.len(),
{
    if cols.len() > 0 {
        let dl = cols.drop_last();
        lemma_row_model_distinct(dl);
        let m = row_model(dl);
        let k0 = cols.last().0;
        lemma_find_key_props(m, k0);
        let fi = find_key(m, k0);
        if fi == -1 {
            assert(forall|j: int| 0 <= j < m.len() ==> m[j].0 != k0);
            assert(forall|j: int| 0 <= j < m.len() ==> row_model(cols)[j] == m[j]);
        } else {
            assert(forall|i: int|
                0 <= i < m.len() && i != fi ==> row_model(cols)[i].0 == m[i].0);
            assert(row_model(cols)[fi].0 == m[fi].0);
        }
    }
}

/// The emitted record: an object with a "timestamp" entry holding the
/// capture instant and a "message" entry holding the array of mapped rows.
pub open spec fn record_matches(
    r: GenericValue,
    rows: Seq<Seq<(Seq<char>, NativeValue)>>,
    ts: Timestamp,
) -> bool {
    r matches GenericValue::Object(top) && top@.len() == 2 && top@[0].0@ == "timestamp"@
        && top@[0].1 == GenericValue::Timestamp(ts) && top@[1].0@ == "message"@ && (top@[1].1
    matches GenericValue::Array(msgs) && msgs@.len() == rows.len() && (forall|i: int|
        0 <= i < rows.len() ==> row_object_matches(msgs@[i], rows[i])))
}

/// Assemble the record one poll tick emits from its mapped rows and the
/// capture timestamp.
pub fn build_record(rows: &Vec<Vec<Column>>, capture: Timestamp) -> (r: GenericValue)
    ensures
        record_matches(r, rows_model(rows@), capture),
{
    let mut msgs: Vec<GenericValue> = Vec::new();
    let mut i: usize = 0;
    while i < rows.len()
        invariant
            i <= rows@.len(),
            msgs@.len() == i,
            forall|q: int| 0 <= q < i ==> row_object_matches(msgs@[q], rows_model(rows@)[q]),
        decreases rows@.len() - i,
    {
        let obj = map_row(&rows[i]);
        msgs.push(obj);
        i = i + 1;
    }
    let mut top: Vec<(String, GenericValue)> = Vec::new();
    top.push(("timestamp".to_owned(), GenericValue::Timestamp(capture)));
    top.push(("message".to_owned(), GenericValue::Array(msgs)));
    GenericValue::Object(top)
}

} // verus!
