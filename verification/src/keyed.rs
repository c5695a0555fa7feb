//! Tables of `(name, value)` entries read as maps: a later entry of a name
//! hides an earlier one. Used for stores whose persisted form is a JSON map.
use vstd::prelude::*;

use crate::text::{lemma_seq_lt_total, lemma_seq_lt_transitive, seq_lt, str_eq, str_lt};

verus! {

/// The map the entries stand for: each name maps to the value of its last entry.
pub open spec fn table_of<V>(e: Seq<(String, V)>) -> Map<Seq<char>, V>
    decreases e.len(),
{
    if e.len() == 0 {
        Map::empty()
    } else {
        table_of(e.drop_last()).insert(e.last().0@, e.last().1)
    }
}

/// No name occurs in two entries.
pub open spec fn names_distinct<V>(e: Seq<(String, V)>) -> bool {
    forall|i: int, j: int| 0 <= i < j < e.len() ==> e[i].0@ != e[j].0@
}

/// The entries whose name is not `k`.
pub open spec fn without_name<V>(e: Seq<(String, V)>, k: Seq<char>) -> Seq<(String, V)> {
    e.filter(|p: (String, V)| p.0@ != k)
}

/// Dropping the entries of a name removes it from the map.
pub proof fn lemma_table_without<V>(e: Seq<(String, V)>, k: Seq<char>)
    ensures
        table_of(without_name(e, k)) == table_of(e).remove(k),
    decreases e.len(),
{
    reveal(Seq::filter);
    if e.len() == 0 {
        assert(without_name(e, k) =~= e);
        assert(table_of(e).remove(k) =~= Map::<Seq<char>, V>::empty());
    } else {
        lemma_table_without(e.drop_last(), k);
        let w = without_name(e, k);
        let ws = without_name(e.drop_last(), k);
        if e.last().0@ == k {
            assert(w == ws);
            assert(table_of(e).remove(k) =~= table_of(e.drop_last()).remove(k));
        } else {
            assert(w == ws.push(e.last()));
            assert(w.drop_last() =~= ws);
            assert(table_of(w) == table_of(ws).insert(e.last().0@, e.last().1));
            assert(table_of(e).remove(k) =~= table_of(e.drop_last()).remove(k).insert(
                e.last().0@,
                e.last().1,
            ));
        }
    }
}

/// Dropping entries keeps names distinct.
pub proof fn lemma_without_distinct<V>(e: Seq<(String, V)>, k: Seq<char>)
    requires
        names_distinct(e),
    ensures
        names_distinct(without_name(e, k)),
        forall|i: int| 0 <= i < without_name(e, k).len() ==> (#[trigger] without_name(e, k)[i]).0@ != k,
        forall|i: int|
            0 <= i < without_name(e, k).len() ==> e.contains(#[trigger] without_name(e, k)[i]),
    decreases e.len(),
{
    reveal(Seq::filter);
    if e.len() > 0 {
        let s = e.drop_last();
        assert(names_distinct(s));
        lemma_without_distinct(s, k);
        let w = without_name(s, k);
        if e.last().0@ != k {
            assert(without_name(e, k) == w.push(e.last()));
            assert forall|i: int| 0 <= i < w.len() implies w[i].0@ != e.last().0@ by {
                assert(s.contains(w[i]));
                let j = choose|j: int| 0 <= j < s.len() && s[j] == w[i];
                assert(e[j] == s[j]);
            }
            assert forall|i: int| 0 <= i < without_name(e, k).len() implies e.contains(
                #[trigger] without_name(e, k)[i],
            ) by {
                if i < w.len() {
                    assert(s.contains(w[i]));
                    let j = choose|j: int| 0 <= j < s.len() && s[j] == w[i];
                    assert(e[j] == s[j]);
                } else {
                    assert(e[e.len() - 1] == e.last());
                }
            }
        } else {
            assert(without_name(e, k) == w);
            assert forall|i: int| 0 <= i < w.len() implies e.contains(#[trigger] w[i]) by {
                assert(s.contains(w[i]));
                let j = choose|j: int| 0 <= j < s.len() && s[j] == w[i];
                assert(e[j] == s[j]);
            }
        }
    }
}

/// With distinct names, the map has the value of the entry at `i` for its name.
pub proof fn lemma_table_at<V>(e: Seq<(String, V)>, i: int)
    requires
        names_distinct(e),
        0 <= i < e.len(),
    ensures
        table_of(e).contains_key(e[i].0@),
        table_of(e)[e[i].0@] == e[i].1,
    decreases e.len(),
{
    if i < e.len() - 1 {
        let s = e.drop_last();
        assert(names_distinct(s));
        assert(s[i] == e[i]);
        lemma_table_at(s, i);
    }
}

/// A name held by no entry is not in the map.
pub proof fn lemma_table_absent<V>(e: Seq<(String, V)>, k: Seq<char>)
    requires
        forall|i: int| 0 <= i < e.len() ==> e[i].0@ != k,
    ensures
        !table_of(e).contains_key(k),
    decreases e.len(),
{
    if e.len() > 0 {
        lemma_table_absent(e.drop_last(), k);
    }
}

/// The names of the map are the names of the entries.
pub proof fn lemma_table_names<V>(e: Seq<(String, V)>, k: Seq<char>)
    ensures
        table_of(e).contains_key(k) <==> exists|i: int| 0 <= i < e.len() && e[i].0@ == k,
    decreases e.len(),
{
    if e.len() > 0 {
        lemma_table_names(e.drop_last(), k);
        if exists|i: int| 0 <= i < e.drop_last().len() && e.drop_last()[i].0@ == k {
            let i = choose|i: int| 0 <= i < e.drop_last().len() && e.drop_last()[i].0@ == k;
            assert(e[i] == e.drop_last()[i]);
        }
        if exists|i: int| 0 <= i < e.len() && e[i].0@ == k {
            let i = choose|i: int| 0 <= i < e.len() && e[i].0@ == k;
            if i < e.len() - 1 {
                assert(e.drop_last()[i] == e[i]);
            }
        }
    }
}

/// The position of the entry named `k`.
pub fn find_name<V>(e: &Vec<(String, V)>, k: &str) -> (r: Option<usize>)
    ensures
        match r {
            Some(i) => i < e@.len() && e@[i as int].0@ == k@,
            None => forall|i: int| 0 <= i < e@.len() ==> e@[i].0@ != k@,
        },
{
    let mut i: usize = 0;
    while i < e.len()
        invariant
            i <= e@.len(),
            forall|j: int| 0 <= j < i ==> e@[j].0@ != k@,
        decreases e@.len() - i,
    {
        if str_eq(e[i].0.as_str(), k) {
            return Some(i);
        }
        i += 1;
    }
    None
}

/// The entries without those named `k`, in order.
pub fn drop_name<V>(e: Vec<(String, V)>, k: &str) -> (r: Vec<(String, V)>)
    ensures
        r@ == without_name(e@, k@),
{
    let ghost all = e@;
    let n: usize = e.len();
    let mut rest = e;
    let mut out: Vec<(String, V)> = Vec::new();
    let mut i: usize = 0;
    while rest.len() > 0
        invariant
            i <= all.len(),
            all.len() == n,
            rest@ == all.skip(i as int),
            out@ == without_name(all.take(i as int), k@),
        decreases rest@.len(),
    {
        let p = rest.remove(0);
        proof {
            reveal(Seq::filter);
            assert(all.take(i + 1).drop_last() =~= all.take(i as int));
            assert(all.take(i + 1).last() == p);
        }
        assert(rest@ =~= all.skip(i + 1));
        if !str_eq(p.0.as_str(), k) {
            out.push(p);
        }
        i += 1;
    }
    assert(all.take(i as int) =~= all);
    out
}

/// With distinct names, dropping the entries of the name at `i` removes just
/// that entry.
pub proof fn lemma_without_is_remove<V>(e: Seq<(String, V)>, i: int)
    requires
        names_distinct(e),
        0 <= i < e.len(),
    ensures
        without_name(e, e[i].0@) == e.remove(i),
    decreases e.len(),
{
    reveal(Seq::filter);
    let k = e[i].0@;
    let s = e.drop_last();
    if i == e.len() - 1 {
        assert forall|j: int| 0 <= j < s.len() implies s[j].0@ != k by {
            assert(s[j] == e[j]);
        }
        lemma_without_all_kept(s, k);
        assert(without_name(e, k) == without_name(s, k));
        assert(e.remove(i) =~= s);
    } else {
        assert(names_distinct(s));
        assert(s[i] == e[i]);
        lemma_without_is_remove(s, i);
        assert(e.last().0@ != k);
        assert(without_name(e, k) == without_name(s, k).push(e.last()));
        assert(e.remove(i) =~= s.remove(i).push(e.last()));
    }
}

/// Dropping a name that no entry holds keeps every entry.
pub proof fn lemma_without_all_kept<V>(e: Seq<(String, V)>, k: Seq<char>)
    requires
        forall|j: int| 0 <= j < e.len() ==> e[j].0@ != k,
    ensures
        without_name(e, k) == e,
    decreases e.len(),
{
    reveal(Seq::filter);
    if e.len() > 0 {
        lemma_without_all_kept(e.drop_last(), k);
        assert(e.drop_last().push(e.last()) =~= e);
    } else {
        assert(without_name(e, k) =~= e);
    }
}

/// Stores `v` under `name`, replacing what was there.
pub fn put_name<V>(e: &mut Vec<(String, V)>, name: String, v: V)
    requires
        names_distinct(old(e)@),
    ensures
        names_distinct(final(e)@),
        table_of(final(e)@) == table_of(old(e)@).insert(name@, v),
{
    let ghost before = e@;
    let mut entries = Vec::new();
    std::mem::swap(&mut entries, e);
    let mut kept = drop_name(entries, name.as_str());
    proof {
        lemma_table_without(before, name@);
        lemma_without_distinct(before, name@);
    }
    let ghost w = kept@;
    kept.push((name, v));
    proof {
        assert(kept@.drop_last() =~= w);
        assert forall|i: int, j: int| 0 <= i < j < kept@.len() implies kept@[i].0@ != kept@[j].0@ by {
            if j == kept@.len() - 1 {
                assert(w[i].0@ != name@);
            } else {
                assert(kept@[i] == w[i] && kept@[j] == w[j]);
            }
        }
        assert(table_of(kept@) =~= table_of(before).remove(name@).insert(name@, v));
        assert(table_of(before).remove(name@).insert(name@, v) =~= table_of(before).insert(name@, v));
    }
    *e = kept;
}

/// Removes and returns the value stored under `name`, if any.
pub fn take_name<V>(e: &mut Vec<(String, V)>, name: &str) -> (r: Option<V>)
    requires
        names_distinct(old(e)@),
    ensures
        names_distinct(final(e)@),
        table_of(final(e)@) == table_of(old(e)@).remove(name@),
        match r {
            Some(v) => table_of(old(e)@).contains_key(name@) && v == table_of(old(e)@)[name@],
            None => !table_of(old(e)@).contains_key(name@),
        },
{
    let ghost before = e@;
    match find_name(e, name) {
        Some(i) => {
            proof {
                lemma_table_at(before, i as int);
                lemma_without_is_remove(before, i as int);
                lemma_table_without(before, name@);
                lemma_without_distinct(before, name@);
            }
            let (_n, v) = e.remove(i);
            Some(v)
        },
        None => {
            proof {
                lemma_table_absent(before, name@);
                lemma_without_all_kept(before, name@);
                lemma_table_without(before, name@);
                assert(table_of(before).remove(name@) =~= table_of(before));
            }
            None
        },
    }
}

/// The names of `l`, in order, are strictly ascending.
pub open spec fn names_ascending<V>(l: Seq<(String, V)>) -> bool {
    forall|i: int, j: int| 0 <= i < j < l.len() ==> seq_lt(l[i].0@, l[j].0@)
}

/// Inserts `item` before the first entry whose name sorts after its name,
/// keeping the names ascending; returns the position.
pub fn insert_sorted<V>(out: &mut Vec<(String, V)>, item: (String, V)) -> (p: usize)
    requires
        names_ascending(old(out)@),
        forall|j: int| 0 <= j < old(out)@.len() ==> old(out)@[j].0@ != item.0@,
    ensures
        p <= old(out)@.len(),
        final(out)@ == old(out)@.insert(p as int, item),
        names_ascending(final(out)@),
{
    let mut p: usize = 0;
    while p < out.len() && !str_lt(item.0.as_str(), out[p].0.as_str())
        invariant
            p <= out@.len(),
            forall|j: int| 0 <= j < p ==> !seq_lt(item.0@, #[trigger] out@[j].0@),
        decreases out@.len() - p,
    {
        p += 1;
    }
    let ghost before = out@;
    let ghost name = item.0@;
    out.insert(p, item);
    assert forall|a: int, b: int| 0 <= a < b < out@.len() implies seq_lt(out@[a].0@, out@[b].0@) by {
        if a < p && b == p {
            assert(!seq_lt(name, before[a].0@));
            lemma_seq_lt_total(before[a].0@, name);
        } else if a == p && b > p {
            assert(seq_lt(name, before[p as int].0@));
            if b - 1 > p {
                lemma_seq_lt_transitive(name, before[p as int].0@, before[b - 1].0@);
            }
        } else if a < p && b > p {
            assert(seq_lt(before[a].0@, before[b - 1].0@));
        } else if a > p {
            assert(seq_lt(before[a - 1].0@, before[b - 1].0@));
        } else {
            assert(seq_lt(before[a].0@, before[b].0@));
        }
    }
    p
}

/// Inserting an entry of a new name anywhere adds that name to the map.
pub proof fn lemma_table_insert_at<V>(s: Seq<(String, V)>, p: int, x: (String, V))
    requires
        0 <= p <= s.len(),
        names_distinct(s.insert(p, x)),
    ensures
        table_of(s.insert(p, x)) == table_of(s).insert(x.0@, x.1),
    decreases s.len(),
{
    let t = s.insert(p, x);
    if p == s.len() {
        assert(t.drop_last() =~= s);
    } else {
        let d = s.drop_last();
        assert(t.drop_last() =~= d.insert(p, x));
        assert(t.last() == s.last());
        assert(names_distinct(d.insert(p, x))) by {
            assert forall|i: int, j: int| 0 <= i < j < d.insert(p, x).len() implies d.insert(p, x)[i].0@
                != d.insert(p, x)[j].0@ by {
                assert(d.insert(p, x)[i] == t[i]);
                assert(d.insert(p, x)[j] == t[j]);
            }
        }
        lemma_table_insert_at(d, p, x);
        assert(t[p] == x);
        assert(t[t.len() - 1] == s.last());
        assert(x.0@ != s.last().0@);
        assert(table_of(t) =~= table_of(s).insert(x.0@, x.1));
    }
}

} // verus!
