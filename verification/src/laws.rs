//! Properties of the mapping table and of the actor's processing, stated as
//! proof functions over the table model.

use vstd::prelude::*;

use crate::db::contains_key;
use crate::db::delete_model;
use crate::db::insert_model;
use crate::db::key_index;
use crate::db::lemma_key_index;
use crate::db::lookup;
use crate::db::unique_keys;
use crate::db::update_model;
use crate::db::TableView;
use crate::db::UrlMap;
use crate::manager::next_state;
use crate::manager::state_after;
use crate::manager::Command;

verus! {

/// Appending a pair reaches exactly the old keys and the new one.
proof fn lemma_contains_push(s: TableView, k: Seq<char>, u: Seq<char>, k2: Seq<char>)
    ensures
        contains_key(s.push((k, u)), k2) <==> (contains_key(s, k2) || k2 == k),
{
    let t = s.push((k, u));
    if contains_key(t, k2) {
        let i = choose|i: int| 0 <= i < t.len() && t[i].0 == k2;
        if i < s.len() {
            assert(s[i].0 == k2);
        } else {
            assert(t[i] == (k, u));
        }
    }
    if contains_key(s, k2) {
        let i = choose|i: int| 0 <= i < s.len() && s[i].0 == k2;
        assert(t[i].0 == k2);
    }
    if k2 == k {
        assert(t[s.len() as int].0 == k2);
    }
}

/// Inserting a fresh key keeps the keys unique, maps the new key to the new
/// url, and leaves every other key's lookup as it was.
proof fn lemma_lookup_insert(s: TableView, k: Seq<char>, u: Seq<char>, k2: Seq<char>)
    requires
        unique_keys(s),
        !contains_key(s, k),
    ensures
        unique_keys(insert_model(s, k, u)),
        lookup(insert_model(s, k, u), k) == Some(u),
        k2 != k ==> lookup(insert_model(s, k, u), k2) == lookup(s, k2),
{
    let t = s.push((k, u));
    assert(insert_model(s, k, u) == t);
    assert forall|x: int, y: int|
        0 <= x < t.len() && 0 <= y < t.len() && x != y
        implies #[trigger] t[x].0 != #[trigger] t[y].0 by {
        if x < s.len() && y < s.len() {
            assert(s[x].0 != s[y].0);
        } else if y == s.len() {
            assert(!(0 <= x < s.len() && s[x].0 == k));
        } else {
            assert(!(0 <= y < s.len() && s[y].0 == k));
        }
    }
    lemma_contains_push(s, k, u, k);
    lemma_key_index(t, k);
    assert(t[s.len() as int].0 == k);
    assert(key_index(t, k) == s.len() as int);
    assert(lookup(t, k) == Some(u));
    if k2 != k {
        lemma_contains_push(s, k, u, k2);
        if contains_key(s, k2) {
            lemma_key_index(s, k2);
            lemma_key_index(t, k2);
            let i = key_index(s, k2);
            assert(t[i].0 == k2);
            assert(key_index(t, k2) == i);
            assert(t[i].1 == s[i].1);
        }
    }
}

/// Updating a present key keeps every key where it was (so the keys stay
/// unique), maps the key to the new url, and leaves every other key's lookup
/// as it was.
proof fn lemma_lookup_update(s: TableView, k: Seq<char>, u: Seq<char>, k2: Seq<char>)
    requires
        unique_keys(s),
        contains_key(s, k),
    ensures
        unique_keys(update_model(s, k, u)),
        update_model(s, k, u).len() == s.len(),
        forall|i: int| 0 <= i < s.len() ==> #[trigger] update_model(s, k, u)[i].0 == s[i].0,
        lookup(update_model(s, k, u), k) == Some(u),
        k2 != k ==> lookup(update_model(s, k, u), k2) == lookup(s, k2),
{
    lemma_key_index(s, k);
    let i0 = key_index(s, k);
    let t = s.update(i0, (k, u));
    assert(update_model(s, k, u) == t);
    assert forall|i: int| 0 <= i < s.len() implies #[trigger] t[i].0 == s[i].0 by {
        if i == i0 {
            assert(t[i].0 == k && s[i].0 == k);
        }
    }
    assert(unique_keys(t));
    assert(t[i0].0 == k);
    assert(contains_key(t, k));
    lemma_key_index(t, k);
    assert(key_index(t, k) == i0);
    assert(lookup(t, k) == Some(u));
    if k2 != k {
        if contains_key(t, k2) {
            lemma_key_index(t, k2);
            let j = key_index(t, k2);
            assert(s[j].0 == k2);
            assert(contains_key(s, k2));
        }
        if contains_key(s, k2) {
            lemma_key_index(s, k2);
            let j = key_index(s, k2);
            assert(j != i0);
            assert(t[j].0 == k2);
            assert(contains_key(t, k2));
            lemma_key_index(t, k2);
            assert(key_index(t, k2) == j);
            assert(t[j].1 == s[j].1);
        }
    }
}

/// Deleting a present key keeps the remaining keys unique, leaves the key
/// unreachable, and leaves every other key's lookup as it was.
proof fn lemma_lookup_delete(s: TableView, k: Seq<char>, k2: Seq<char>)
    requires
        unique_keys(s),
        contains_key(s, k),
    ensures
        unique_keys(delete_model(s, k)),
        delete_model(s, k).len() == s.len() - 1,
        !contains_key(delete_model(s, k), k),
        k2 != k ==> lookup(delete_model(s, k), k2) == lookup(s, k2),
{
    lemma_key_index(s, k);
    let i0 = key_index(s, k);
    let t = s.remove(i0);
    assert(delete_model(s, k) == t);
    assert forall|x: int, y: int|
        0 <= x < t.len() && 0 <= y < t.len() && x != y
        implies #[trigger] t[x].0 != #[trigger] t[y].0 by {
        let x0 = if x < i0 { x } else { x + 1 };
        let y0 = if y < i0 { y } else { y + 1 };
        assert(t[x].0 == s[x0].0);
        assert(t[y].0 == s[y0].0);
        assert(s[x0].0 != s[y0].0);
    }
    assert forall|j: int| 0 <= j < t.len() implies #[trigger] t[j].0 != k by {
        let j0 = if j < i0 { j } else { j + 1 };
        assert(t[j].0 == s[j0].0);
        assert(j0 != i0);
        assert(s[j0].0 != s[i0].0);
    }
    assert(!contains_key(t, k));
    if k2 != k {
        if contains_key(t, k2) {
            let j = choose|j: int| 0 <= j < t.len() && t[j].0 == k2;
            let j0 = if j < i0 { j } else { j + 1 };
            assert(s[j0].0 == k2);
            assert(contains_key(s, k2));
        }
        if contains_key(s, k2) {
            lemma_key_index(s, k2);
            let j0 = key_index(s, k2);
            assert(j0 != i0);
            let j = if j0 < i0 { j0 } else { j0 - 1 };
            assert(t[j].0 == k2);
            assert(contains_key(t, k2));
            lemma_key_index(t, k2);
            assert(key_index(t, k2) == j);
            assert(t[j].1 == s[j0].1);
        }
    }
}

/// Inserting a fresh key succeeds, and a following get of that key returns
/// exactly the inserted pair.
pub proof fn lemma_insert_then_get(s: TableView, k: Seq<char>, u: Seq<char>)
    requires
        unique_keys(s),
        !contains_key(s, k),
    ensures
        unique_keys(insert_model(s, k, u)),
        contains_key(insert_model(s, k, u), k),
        lookup(insert_model(s, k, u), k) == Some(u),
{
    lemma_lookup_insert(s, k, u, k);
    lemma_contains_push(s, k, u, k);
}

/// A key the table does not hold: get finds nothing, and update and delete
/// leave the table exactly as it was.
pub proof fn lemma_absent_key(s: TableView, k: Seq<char>, u: Seq<char>)
    requires
        !contains_key(s, k),
    ensures
        lookup(s, k) is None,
        update_model(s, k, u) == s,
        delete_model(s, k) == s,
{
}

/// Inserting the same key twice: the second insert is refused and changes
/// nothing, and the first mapping is still the one retrieved.
pub proof fn lemma_insert_twice(s: TableView, k: Seq<char>, u1: Seq<char>, u2: Seq<char>)
    requires
        unique_keys(s),
        !contains_key(s, k),
    ensures
        contains_key(insert_model(s, k, u1), k),
        insert_model(insert_model(s, k, u1), k, u2) == insert_model(s, k, u1),
        lookup(insert_model(s, k, u1), k) == Some(u1),
{
    lemma_insert_then_get(s, k, u1);
}

/// An update changes only the url under its key: the keys all stay put, any
/// other key still finds its old url, and a delete of the key afterwards
/// removes the updated url and nothing else.
pub proof fn lemma_update_then_delete(s: TableView, k: Seq<char>, u: Seq<char>)
    requires
        unique_keys(s),
        contains_key(s, k),
    ensures
        update_model(s, k, u).len() == s.len(),
        forall|i: int| 0 <= i < s.len() ==> #[trigger] update_model(s, k, u)[i].0 == s[i].0,
        lookup(update_model(s, k, u), k) == Some(u),
        forall|k2: Seq<char>| k2 != k
            ==> #[trigger] lookup(update_model(s, k, u), k2) == lookup(s, k2),
        !contains_key(delete_model(update_model(s, k, u), k), k),
        forall|k2: Seq<char>| k2 != k
            ==> #[trigger] lookup(delete_model(update_model(s, k, u), k), k2) == lookup(s, k2),
{
    let s1 = update_model(s, k, u);
    lemma_lookup_update(s, k, u, k);
    assert forall|k2: Seq<char>| k2 != k implies #[trigger] lookup(s1, k2) == lookup(s, k2) by {
        lemma_lookup_update(s, k, u, k2);
    }
    lemma_lookup_delete(s1, k, k);
    assert forall|k2: Seq<char>| k2 != k
        implies #[trigger] lookup(delete_model(s1, k), k2) == lookup(s, k2) by {
        lemma_lookup_delete(s1, k, k2);
    }
}

/// Every command of the batch is an insert.
pub open spec fn all_inserts(q: Seq<Command>) -> bool {
    forall|i: int| 0 <= i < q.len() ==> q[i] is CreateUrlMap
}

/// The key an insert command carries.
pub open spec fn insert_key(c: Command) -> Seq<char> {
    match c {
        Command::CreateUrlMap { url_map } => url_map.key@,
        _ => Seq::empty(),
    }
}

/// Some insert of the batch carries the key `k`.
pub open spec fn has_insert_key(q: Seq<Command>, k: Seq<char>) -> bool {
    exists|i: int| 0 <= i < q.len() && insert_key(q[i]) == k
}

/// A batch of inserts reaches exactly the keys already stored and the keys
/// it inserts, and keeps the keys unique.
proof fn lemma_insert_batch_contains(s: TableView, q: Seq<Command>, k: Seq<char>)
    requires
        unique_keys(s),
        all_inserts(q),
    ensures
        unique_keys(state_after(s, q)),
        contains_key(state_after(s, q), k) <==> (contains_key(s, k) || has_insert_key(q, k)),
    decreases q.len(),
{
    if q.len() == 0 {
        assert(!has_insert_key(q, k));
    } else {
        assert(q[0] is CreateUrlMap);
        let key0 = insert_key(q[0]);
        let url0 = match q[0] {
            Command::CreateUrlMap { url_map } => url_map.url@,
            _ => Seq::empty(),
        };
        let s1 = next_state(s, q[0]);
        assert(s1 == insert_model(s, key0, url0));
        if contains_key(s, key0) {
            assert(s1 == s);
        } else {
            lemma_lookup_insert(s, key0, url0, key0);
            lemma_contains_push(s, key0, url0, k);
        }
        assert(all_inserts(q.drop_first())) by {
            assert forall|i: int| 0 <= i < q.drop_first().len()
                implies #[trigger] q.drop_first()[i] is CreateUrlMap by {
                assert(q.drop_first()[i] == q[i + 1]);
            }
        }
        lemma_insert_batch_contains(s1, q.drop_first(), k);
        assert(state_after(s, q) == state_after(s1, q.drop_first()));
        if has_insert_key(q.drop_first(), k) {
            let i = choose|i: int|
                0 <= i < q.drop_first().len() && insert_key(q.drop_first()[i]) == k;
            assert(q.drop_first()[i] == q[i + 1]);
            assert(has_insert_key(q, k));
        }
        if has_insert_key(q, k) && k != key0 {
            let i = choose|i: int| 0 <= i < q.len() && insert_key(q[i]) == k;
            assert(i != 0);
            assert(q.drop_first()[i - 1] == q[i]);
            assert(has_insert_key(q.drop_first(), k));
        }
    }
}

/// A batch of inserts on pairwise distinct keys, none of them stored yet:
/// whatever order the batch arrives in, every insert still finds its key
/// free when the actor reaches it, so every one of the batch's replies is a
/// success.
pub proof fn lemma_disjoint_inserts_all_succeed(s: TableView, q: Seq<Command>)
    requires
        unique_keys(s),
        all_inserts(q),
        forall|i: int, j: int| 0 <= i < j < q.len() ==> insert_key(q[i]) != insert_key(q[j]),
        forall|i: int| 0 <= i < q.len() ==> !contains_key(s, insert_key(#[trigger] q[i])),
    ensures
        forall|i: int| 0 <= i < q.len()
            ==> !contains_key(state_after(s, q.take(i)), insert_key(#[trigger] q[i])),
{
    assert forall|i: int| 0 <= i < q.len()
        implies !contains_key(state_after(s, q.take(i)), insert_key(#[trigger] q[i])) by {
        let qi = q.take(i);
        let k = insert_key(q[i]);
        assert(all_inserts(qi)) by {
            assert forall|x: int| 0 <= x < qi.len() implies #[trigger] qi[x] is CreateUrlMap by {
                assert(qi[x] == q[x]);
            }
        }
        lemma_insert_batch_contains(s, qi, k);
        if has_insert_key(qi, k) {
            let j = choose|j: int| 0 <= j < qi.len() && insert_key(qi[j]) == k;
            assert(qi[j] == q[j]);
            assert(insert_key(q[j]) != insert_key(q[i]));
        }
    }
}

/// An insert and a delete racing on one key: the actor's outcome is the fold
/// of the order in which the two were dequeued. Delete last leaves the key
/// absent and the table as before the race; insert last leaves the key
/// mapped to the inserted url.
pub proof fn lemma_write_race(s: TableView, key: String, url: String)
    requires
        unique_keys(s),
        !contains_key(s, key@),
    ensures
        state_after(s, seq![
            Command::CreateUrlMap { url_map: UrlMap { key: key, url: url } },
            Command::DeleteUrlMap { key: key },
        ]) == s,
        lookup(state_after(s, seq![
            Command::DeleteUrlMap { key: key },
            Command::CreateUrlMap { url_map: UrlMap { key: key, url: url } },
        ]), key@) == Some(url@),
{
    let ins = Command::CreateUrlMap { url_map: UrlMap { key: key, url: url } };
    let del = Command::DeleteUrlMap { key: key };

    let q1 = seq![ins, del];
    assert(q1[0] == ins);
    assert(q1.drop_first() =~= seq![del]);
    assert(seq![del][0] == del);
    assert(seq![del].drop_first() =~= Seq::<Command>::empty());
    let s1 = insert_model(s, key@, url@);
    assert(next_state(s, ins) == s1);
    assert(state_after(s, q1) == state_after(s1, seq![del]));
    assert(next_state(s1, del) == delete_model(s1, key@));
    assert(state_after(delete_model(s1, key@), Seq::<Command>::empty()) == delete_model(s1, key@));
    assert(state_after(s, q1) == delete_model(s1, key@));
    lemma_insert_then_get(s, key@, url@);
    lemma_key_index(s1, key@);
    let i0 = key_index(s1, key@);
    assert(s1 == s.push((key@, url@)));
    assert(s1[s.len() as int].0 == key@);
    assert(i0 == s.len() as int);
    assert(delete_model(s1, key@) =~= s);

    let q2 = seq![del, ins];
    assert(q2[0] == del);
    assert(q2.drop_first() =~= seq![ins]);
    assert(seq![ins][0] == ins);
    assert(seq![ins].drop_first() =~= Seq::<Command>::empty());
    assert(delete_model(s, key@) == s);
    assert(next_state(s, del) == s);
    assert(state_after(s, q2) == state_after(s, seq![ins]));
    assert(next_state(s, ins) == insert_model(s, key@, url@));
    assert(state_after(insert_model(s, key@, url@), Seq::<Command>::empty())
        == insert_model(s, key@, url@));
    assert(state_after(s, q2) == insert_model(s, key@, url@));
    assert(lookup(insert_model(s, key@, url@), key@) == Some(url@));
}

} // verus!
