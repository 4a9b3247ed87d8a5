//! Building the JSON document: one object for each row, its keys the
//! headers and its values the row's cells, paired by position.

use vstd::prelude::*;
use serde_json::Value;
use crate::json::{
    array_value, each_json_of, entries_of, has_key, json_of, keys_distinct, keys_of,
    lemma_put_known_key, lemma_put_new_key, new_object, object_insert, object_value, put,
    text_value, Json,
};
use crate::row::Row;

verus! {

/// How many cells of a row get a key: as many as there are headers, or all
/// of them where the row is the shorter one.
pub open spec fn paired(headers: Seq<Seq<char>>, cells: Seq<Seq<char>>) -> nat {
    if headers.len() <= cells.len() {
        headers.len()
    } else {
        cells.len()
    }
}

/// The entries of a row's object once the first `n` headers were given
/// their cells, one after the other.
pub open spec fn entries_upto(headers: Seq<Seq<char>>, cells: Seq<Seq<char>>, n: nat) -> Seq<
    (Seq<char>, Json),
>
    decreases n,
{
    if n == 0 {
        Seq::empty()
    } else {
        put(
            entries_upto(headers, cells, (n - 1) as nat),
            headers[n - 1],
            Json::Text(cells[n - 1]),
        )
    }
}

/// The entries of a row's object: each header with the cell at its
/// position, as far as both reach. A header that occurs again keeps its
/// place and takes the later cell.
pub open spec fn row_entries(headers: Seq<Seq<char>>, cells: Seq<Seq<char>>) -> Seq<
    (Seq<char>, Json),
> {
    entries_upto(headers, cells, paired(headers, cells))
}

/// The object of one row.
pub open spec fn row_json(headers: Seq<Seq<char>>, cells: Seq<Seq<char>>) -> Json {
    Json::Object(row_entries(headers, cells))
}

/// The document of a table: the array of its rows' objects, in row order.
pub open spec fn table_json(headers: Seq<Seq<char>>, rows: Seq<Seq<Seq<char>>>) -> Json {
    Json::Array(rows.map_values(|cells: Seq<Seq<char>>| row_json(headers, cells)))
}

/// Among the first `n` headers, none after position `i` reads as the one at
/// `i` does.
pub open spec fn is_last_of(headers: Seq<Seq<char>>, n: nat, i: int) -> bool {
    &&& 0 <= i < n
    &&& forall|k: int| i < k < n ==> #[trigger] headers[k] != headers[i]
}

/// What the entries are after `n` headers were given their cells: no key
/// stands twice; each entry is a header with the cell of that header's last
/// occurrence; and each of the `n` headers is a key.
pub proof fn lemma_entries_upto(headers: Seq<Seq<char>>, cells: Seq<Seq<char>>, n: nat)
    requires
        n <= headers.len(),
        n <= cells.len(),
    ensures
        keys_distinct(entries_upto(headers, cells, n)),
        entries_upto(headers, cells, n).len() <= n,
        forall|j: int|
            0 <= j < entries_upto(headers, cells, n).len() ==> exists|i: int|
                #[trigger] is_last_of(headers, n, i) && (#[trigger] entries_upto(
                    headers,
                    cells,
                    n,
                )[j]) == (headers[i], Json::Text(cells[i])),
        forall|i: int|
            0 <= i < n ==> has_key(entries_upto(headers, cells, n), #[trigger] headers[i]),
    decreases n,
{
    if n > 0 {
        let m = (n - 1) as nat;
        let before = entries_upto(headers, cells, m);
        let after = entries_upto(headers, cells, n);
        let key = headers[n - 1];
        let value = Json::Text(cells[n - 1]);
        lemma_entries_upto(headers, cells, m);
        assert(is_last_of(headers, n, n - 1));
        if has_key(before, key) {
            let at = choose|j: int| 0 <= j < before.len() && (#[trigger] before[j]).0 == key;
            lemma_put_known_key(before, key, value, at);
            assert(after == before.update(at, (key, value)));
            assert forall|j: int| 0 <= j < after.len() implies exists|i: int|
                #[trigger] is_last_of(headers, n, i) && (#[trigger] after[j]) == (
                    headers[i],
                    Json::Text(cells[i]),
                ) by {
                if j != at {
                    let i = choose|i: int|
                        #[trigger] is_last_of(headers, m, i) && before[j] == (
                            headers[i],
                            Json::Text(cells[i]),
                        );
                    assert(before[j].0 != before[at].0);
                    assert(is_last_of(headers, n, i));
                }
            }
            assert forall|i: int| 0 <= i < n implies has_key(after, #[trigger] headers[i]) by {
                if i < m {
                    let j = choose|j: int|
                        0 <= j < before.len() && (#[trigger] before[j]).0 == headers[i];
                    assert(after[j].0 == headers[i]);
                } else {
                    assert(after[at].0 == headers[i]);
                }
            }
        } else {
            lemma_put_new_key(before, key, value);
            assert(after == before.push((key, value)));
            assert forall|j: int| 0 <= j < after.len() implies exists|i: int|
                #[trigger] is_last_of(headers, n, i) && (#[trigger] after[j]) == (
                    headers[i],
                    Json::Text(cells[i]),
                ) by {
                if j < before.len() {
                    let i = choose|i: int|
                        #[trigger] is_last_of(headers, m, i) && before[j] == (
                            headers[i],
                            Json::Text(cells[i]),
                        );
                    assert(before[j].0 != key);
                    assert(is_last_of(headers, n, i));
                }
            }
            assert forall|i: int| 0 <= i < n implies has_key(after, #[trigger] headers[i]) by {
                if i < m {
                    let j = choose|j: int|
                        0 <= j < before.len() && (#[trigger] before[j]).0 == headers[i];
                    assert(after[j].0 == headers[i]);
                } else {
                    assert(after[before.len() as int].0 == headers[i]);
                }
            }
        }
    }
}

/// `texts` without its repeats: each text once, where it first occurs.
pub open spec fn first_occurrences(texts: Seq<Seq<char>>) -> Seq<Seq<char>>
    decreases texts.len(),
{
    if texts.len() == 0 {
        Seq::empty()
    } else if texts.drop_last().contains(texts.last()) {
        first_occurrences(texts.drop_last())
    } else {
        first_occurrences(texts.drop_last()).push(texts.last())
    }
}

/// Texts that do not repeat are their own first occurrences.
pub proof fn lemma_first_occurrences_of_distinct(texts: Seq<Seq<char>>)
    requires
        texts.no_duplicates(),
    ensures
        first_occurrences(texts) == texts,
    decreases texts.len(),
{
    if texts.len() > 0 {
        let init = texts.drop_last();
        lemma_first_occurrences_of_distinct(init);
        if init.contains(texts.last()) {
            let k = choose|k: int| 0 <= k < init.len() && init[k] == texts.last();
            assert(texts[k] == texts[texts.len() - 1]);
        }
        assert(init.push(texts.last()) =~= texts);
    }
}

/// After `n` headers were given their cells, the keys are those headers
/// without their repeats, in the order in which they first occur.
pub proof fn lemma_keys_upto(headers: Seq<Seq<char>>, cells: Seq<Seq<char>>, n: nat)
    requires
        n <= headers.len(),
        n <= cells.len(),
    ensures
        keys_of(entries_upto(headers, cells, n)) == first_occurrences(headers.take(n as int)),
    decreases n,
{
    if n == 0 {
        assert(keys_of(entries_upto(headers, cells, n)) =~= Seq::empty());
    } else {
        let m = (n - 1) as nat;
        let before = entries_upto(headers, cells, m);
        let after = entries_upto(headers, cells, n);
        let key = headers[n - 1];
        let value = Json::Text(cells[n - 1]);
        lemma_keys_upto(headers, cells, m);
        lemma_entries_upto(headers, cells, m);
        assert(headers.take(n as int).drop_last() =~= headers.take(m as int));
        assert(headers.take(n as int).last() == key);
        if has_key(before, key) {
            let at = choose|j: int| 0 <= j < before.len() && (#[trigger] before[j]).0 == key;
            lemma_put_known_key(before, key, value, at);
            let i = choose|i: int|
                #[trigger] is_last_of(headers, m, i) && before[at] == (
                    headers[i],
                    Json::Text(cells[i]),
                );
            assert(headers.take(m as int)[i] == key);
            assert(keys_of(after) =~= keys_of(before));
        } else {
            lemma_put_new_key(before, key, value);
            if headers.take(m as int).contains(key) {
                let i = choose|i: int| 0 <= i < m && headers.take(m as int)[i] == key;
                assert(has_key(before, headers[i]));
            }
            assert(keys_of(after) =~= keys_of(before).push(key));
        }
    }
}

/// The keys of a row's object follow the headers: they are the headers that
/// have a cell, each once, in the order in which they first occur.
pub proof fn lemma_keys_follow_headers(headers: Seq<Seq<char>>, cells: Seq<Seq<char>>)
    ensures
        keys_of(row_entries(headers, cells)) == first_occurrences(
            headers.take(paired(headers, cells) as int),
        ),
        keys_distinct(row_entries(headers, cells)),
{
    lemma_keys_upto(headers, cells, paired(headers, cells));
    lemma_entries_upto(headers, cells, paired(headers, cells));
}

/// Where a header occurs more than once, its last occurrence among the
/// headers that have a cell decides the value: the object holds that header
/// with the cell at that position.
pub proof fn lemma_last_header_wins(headers: Seq<Seq<char>>, cells: Seq<Seq<char>>, i: int)
    requires
        is_last_of(headers, paired(headers, cells), i),
    ensures
        row_entries(headers, cells).contains((headers[i], Json::Text(cells[i]))),
{
    let n = paired(headers, cells);
    let entries = row_entries(headers, cells);
    lemma_entries_upto(headers, cells, n);
    assert(has_key(entries, headers[i]));
    let j = choose|j: int| 0 <= j < entries.len() && (#[trigger] entries[j]).0 == headers[i];
    let w = choose|w: int|
        #[trigger] is_last_of(headers, n, w) && entries[j] == (headers[w], Json::Text(cells[w]));
    if w < i {
        assert(headers[i] != headers[w]);
    } else if i < w {
        assert(headers[w] != headers[i]);
    }
    assert(entries[j] == (headers[i], Json::Text(cells[i])));
}

/// Where no header repeats, the object pairs header and cell position by
/// position, as far as both reach: nothing is left out before that and
/// nothing is added.
pub proof fn lemma_distinct_headers_pair_up(headers: Seq<Seq<char>>, cells: Seq<Seq<char>>)
    requires
        headers.take(paired(headers, cells) as int).no_duplicates(),
    ensures
        row_entries(headers, cells) == Seq::new(
            paired(headers, cells),
            |i: int| (headers[i], Json::Text(cells[i])),
        ),
{
    let n = paired(headers, cells);
    let entries = row_entries(headers, cells);
    let used = headers.take(n as int);
    lemma_keys_upto(headers, cells, n);
    lemma_entries_upto(headers, cells, n);
    lemma_first_occurrences_of_distinct(used);
    assert(keys_of(entries).len() == n);
    assert forall|j: int| 0 <= j < n implies #[trigger] entries[j] == (
        headers[j],
        Json::Text(cells[j]),
    ) by {
        assert(keys_of(entries)[j] == used[j]);
        let w = choose|w: int|
            #[trigger] is_last_of(headers, n, w) && entries[j] == (
                headers[w],
                Json::Text(cells[w]),
            );
        assert(used[w] == used[j]);
    }
    assert(entries =~= Seq::new(n, |i: int| (headers[i], Json::Text(cells[i]))));
}

/// `json` is an object, and each of its keys is one of `headers`.
pub open spec fn is_object_keyed_by(json: Json, headers: Seq<Seq<char>>) -> bool {
    json matches Json::Object(entries) && forall|j: int|
        0 <= j < entries.len() ==> headers.contains((#[trigger] entries[j]).0)
}

/// The document of a table is an array with one object for each row, in row
/// order, and no object has a key that is not one of the headers.
pub proof fn lemma_one_object_per_row(headers: Seq<Seq<char>>, rows: Seq<Seq<Seq<char>>>)
    ensures
        table_json(headers, rows) matches Json::Array(objects) && {
            &&& objects.len() == rows.len()
            &&& forall|r: int|
                0 <= r < objects.len() ==> #[trigger] objects[r] == row_json(headers, rows[r])
            &&& forall|r: int|
                0 <= r < objects.len() ==> is_object_keyed_by(#[trigger] objects[r], headers)
        },
{
    let objects = rows.map_values(|cells: Seq<Seq<char>>| row_json(headers, cells));
    assert forall|r: int| 0 <= r < objects.len() implies is_object_keyed_by(
        #[trigger] objects[r],
        headers,
    ) by {
        let n = paired(headers, rows[r]);
        let entries = row_entries(headers, rows[r]);
        lemma_entries_upto(headers, rows[r], n);
        assert forall|j: int| 0 <= j < entries.len() implies headers.contains(
            (#[trigger] entries[j]).0,
        ) by {
            let w = choose|w: int|
                #[trigger] is_last_of(headers, n, w) && entries[j] == (
                    headers[w],
                    Json::Text(rows[r][w]),
                );
            assert(headers[w] == entries[j].0);
        }
    }
}

/// The entries of the object of `row` under `headers`.
fn row_object(headers: &Vec<String>, row: &Row) -> (object: serde_json::Map<String, Value>)
    ensures
        Json::Object(entries_of(object)) == row_json(headers.deep_view(), row@),
{
    let count = if headers.len() <= row.values.len() {
        headers.len()
    } else {
        row.values.len()
    };
    let mut object = new_object();
    for i in 0..count
        invariant
            count == paired(headers.deep_view(), row@),
            entries_of(object) == entries_upto(headers.deep_view(), row@, i as nat),
    {
        let key = headers[i].clone();
        let value = text_value(row.values[i].clone());
        object_insert(&mut object, key, value);
    }
    object
}

/// The JSON document of a table: an array with one object for each row, in
/// row order. In each object the headers are the keys, in header order, and
/// the row's cells the values, paired by position; cells beyond the last
/// header are left out, and headers beyond the last cell get no key.
pub fn generate_json(headers: Vec<String>, rows: Vec<Row>) -> (document: Value)
    ensures
        json_of(document) == table_json(headers.deep_view(), rows.deep_view()),
{
    let mut objects: Vec<Value> = Vec::new();
    for r in 0..rows.len()
        invariant
            objects.len() == r,
            forall|k: int|
                0 <= k < r ==> json_of(#[trigger] objects[k]) == row_json(
                    headers.deep_view(),
                    rows[k]@,
                ),
    {
        let object = row_object(&headers, &rows[r]);
        objects.push(object_value(object));
    }
    assert(each_json_of(objects@) =~= rows.deep_view().map_values(
        |cells: Seq<Seq<char>>| row_json(headers.deep_view(), cells),
    ));
    array_value(objects)
}

} // verus!
