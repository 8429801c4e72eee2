//! Keyed rows: the model of an ordered string-keyed map as a sequence of
//! (key, value) pairs, with first-match lookup.

use vstd::prelude::*;

verus! {

/// The value of the first row whose key is `k`, if any.
pub open spec fn lookup<V>(rows: Seq<(Seq<char>, V)>, k: Seq<char>) -> Option<V>
    decreases rows.len(),
{
    if rows.len() == 0 {
        None
    } else if rows[0].0 == k {
        Some(rows[0].1)
    } else {
        lookup(rows.drop_first(), k)
    }
}

/// The rows as a map: each key to the value of its first row.
pub open spec fn rows_map<V>(rows: Seq<(Seq<char>, V)>) -> Map<Seq<char>, V> {
    Map::new(|k: Seq<char>| lookup(rows, k) is Some, |k: Seq<char>| lookup(rows, k).unwrap())
}

/// No key occurs twice in `rows`.
pub open spec fn distinct_keys<V>(rows: Seq<(Seq<char>, V)>) -> bool {
    forall|i: int, j: int| 0 <= i < j < rows.len() ==> rows[i].0 != rows[j].0
}

/// The rows of a vector of (String, value) pairs, keys by their characters.
pub open spec fn string_rows<V>(v: Seq<(String, V)>) -> Seq<(Seq<char>, V)> {
    v.map_values(|p: (String, V)| (p.0@, p.1))
}

/// `lookup` finds the first row with the key, and nothing when no row has it.
pub proof fn lemma_lookup<V>(rows: Seq<(Seq<char>, V)>, k: Seq<char>)
    ensures
        lookup(rows, k) is None <==> forall|i: int| 0 <= i < rows.len() ==> rows[i].0 != k,
        forall|i: int|
            0 <= i < rows.len() && rows[i].0 == k && (forall|j: int| 0 <= j < i ==> rows[j].0 != k)
                ==> lookup(rows, k) == Some(rows[i].1),
    decreases rows.len(),
{
    if rows.len() > 0 {
        let rest = rows.drop_first();
        lemma_lookup(rest, k);
        assert forall|i: int|
            0 <= i < rows.len() && rows[i].0 == k && (forall|j: int| 0 <= j < i ==> rows[j].0 != k)
            implies lookup(rows, k) == Some(rows[i].1) by {
            if i > 0 {
                assert(rest[i - 1] == rows[i]);
                assert forall|j: int| 0 <= j < i - 1 implies rest[j].0 != k by {
                    assert(rest[j] == rows[j + 1]);
                }
            }
        }
        if lookup(rows, k) is None {
            assert forall|i: int| 0 <= i < rows.len() implies rows[i].0 != k by {
                if i > 0 {
                    assert(rest[i - 1] == rows[i]);
                }
            }
        }
        if forall|i: int| 0 <= i < rows.len() ==> rows[i].0 != k {
            assert forall|i: int| 0 <= i < rest.len() implies rest[i].0 != k by {
                assert(rest[i] == rows[i + 1]);
            }
        }
    }
}

/// With distinct keys, `lookup` gives the value of the one row with the key.
pub proof fn lemma_lookup_distinct<V>(rows: Seq<(Seq<char>, V)>, i: int)
    requires
        distinct_keys(rows),
        0 <= i < rows.len(),
    ensures
        lookup(rows, rows[i].0) == Some(rows[i].1),
{
    lemma_lookup(rows, rows[i].0);
}

/// The index of the first row of `rows` whose key is `k`.
pub fn find_row<V>(rows: &Vec<(String, V)>, k: &str) -> (r: Option<usize>)
    ensures
        match r {
            Some(i) => {
                &&& i < rows.len()
                &&& rows@[i as int].0@ == k@
                &&& forall|j: int| 0 <= j < i ==> rows@[j].0@ != k@
            },
            None => forall|j: int| 0 <= j < rows.len() ==> rows@[j].0@ != k@,
        },
{
    for i in 0..rows.len()
        invariant
            forall|j: int| 0 <= j < i ==> rows@[j].0@ != k@,
    {
        if crate::text::str_eq(rows[i].0.as_str(), k) {
            return Some(i);
        }
    }
    None
}

} // verus!
