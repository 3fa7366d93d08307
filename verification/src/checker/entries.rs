//! Tables from names to values, kept as lists of entries: the first entry
//! with a name is the one that counts, and defining a name again replaces
//! its value.
use vstd::prelude::*;

use crate::text::str_equals;

verus! {

/// The value of the first entry named `id`, if there is one.
pub open spec fn lookup<'a, V>(entries: Seq<(&'a str, V)>, id: Seq<char>) -> Option<V>
    decreases entries.len(),
{
    if entries.len() == 0 {
        None
    } else if entries[0].0@ == id {
        Some(entries[0].1)
    } else {
        lookup(entries.drop_first(), id)
    }
}

/// Whether no entry in `entries[..n]` is named `id`.
pub open spec fn absent_before<'a, V>(entries: Seq<(&'a str, V)>, id: Seq<char>, n: int) -> bool {
    forall|k: int| 0 <= k < n ==> (#[trigger] entries[k]).0@ != id
}

/// The entries after defining `id` as `value`: the first entry named `id`
/// gets the value, or a new entry is added at the end.
pub open spec fn define<'a, V>(entries: Seq<(&'a str, V)>, id: &'a str, value: V) -> Seq<(&'a str, V)>
    decreases entries.len(),
{
    if entries.len() == 0 {
        seq![(id, value)]
    } else if entries[0].0@ == id@ {
        entries.update(0, (id, value))
    } else {
        seq![entries[0]] + define(entries.drop_first(), id, value)
    }
}

/// Defining a name replaces its first entry, or adds one at the end.
proof fn lemma_define_at<'a, V>(entries: Seq<(&'a str, V)>, id: &'a str, value: V, n: int)
    requires
        0 <= n <= entries.len(),
        absent_before(entries, id@, n),
        n < entries.len() ==> entries[n].0@ == id@,
    ensures
        n < entries.len() ==> define(entries, id, value) == entries.update(n, (id, value)),
        n == entries.len() ==> define(entries, id, value) == entries.push((id, value)),
    decreases n,
{
    if n > 0 {
        let rest = entries.drop_first();
        assert forall|k: int| 0 <= k < n - 1 implies (#[trigger] rest[k]).0@ != id@ by {
            assert(rest[k] == entries[k + 1]);
        }
        assert(entries[0].0@ != id@);
        lemma_define_at(rest, id, value, n - 1);
        if n < entries.len() {
            assert(seq![entries[0]] + rest.update(n - 1, (id, value)) =~= entries.update(n, (id, value)));
        } else {
            assert(seq![entries[0]] + rest.push((id, value)) =~= entries.push((id, value)));
        }
    } else if entries.len() == 0 {
        assert(seq![(id, value)] =~= entries.push((id, value)));
    }
}

/// The index of the first entry named `id`, if there is one.
pub fn find_entry<'a, V>(entries: &Vec<(&'a str, V)>, id: &str) -> (r: Option<usize>)
    ensures
        match r {
            Some(k) => k < entries.len() && absent_before(entries@, id@, k as int) && entries@[k as int].0@ == id@,
            None => absent_before(entries@, id@, entries.len() as int),
        },
{
    let mut k: usize = 0;
    while k < entries.len()
        invariant
            k <= entries.len(),
            absent_before(entries@, id@, k as int),
        decreases entries.len() - k,
    {
        if str_equals(entries[k].0, id) {
            return Some(k);
        }
        k += 1;
    }
    None
}

/// Defines `id` as `value`: the first entry of that name gets the value, or
/// a new entry is added.
pub fn insert_entry<'a, V>(entries: &mut Vec<(&'a str, V)>, id: &'a str, value: V)
    ensures
        final(entries)@ == define(old(entries)@, id, value),
{
    match find_entry(entries, id) {
        Some(k) => {
            proof {
                lemma_define_at(entries@, id, value, k as int);
            }
            entries.set(k, (id, value));
        },
        None => {
            proof {
                lemma_define_at(entries@, id, value, entries.len() as int);
            }
            entries.push((id, value));
        },
    }
}

/// After defining `id` as `value`, `id` has that value and every other name
/// keeps its own.
pub proof fn lemma_define<'a, V>(entries: Seq<(&'a str, V)>, id: &'a str, value: V, other: Seq<char>)
    ensures
        lookup(define(entries, id, value), id@) == Some(value),
        other != id@ ==> lookup(define(entries, id, value), other) == lookup(entries, other),
    decreases entries.len(),
{
    if entries.len() > 0 && entries[0].0@ != id@ {
        lemma_define(entries.drop_first(), id, value, other);
        let d = define(entries, id, value);
        assert(d[0] == entries[0]);
        assert(d.drop_first() =~= define(entries.drop_first(), id, value));
        if other != id@ {
            if entries[0].0@ == other {
                assert(lookup(d, other) == Some(entries[0].1));
            } else {
                assert(lookup(d, other) == lookup(d.drop_first(), other));
                assert(lookup(entries, other) == lookup(entries.drop_first(), other));
            }
        }
    } else if entries.len() > 0 {
        let d = define(entries, id, value);
        assert(d[0] == (id, value));
        assert(d.drop_first() =~= entries.drop_first());
        if other != id@ {
            assert(lookup(d, other) == lookup(d.drop_first(), other));
            assert(lookup(entries, other) == lookup(entries.drop_first(), other));
        }
    } else {
        let d = define(entries, id, value);
        assert(d[0] == (id, value));
        assert(d.drop_first() =~= Seq::<(&'a str, V)>::empty());
        if other != id@ {
            assert(lookup(d, other) == lookup(d.drop_first(), other));
            assert(lookup(d, other) is None);
        }
    }
}

/// The index of the first entry named `id`, if there is one.
pub open spec fn first_index<'a, V>(entries: Seq<(&'a str, V)>, id: Seq<char>) -> Option<int>
    decreases entries.len(),
{
    if entries.len() == 0 {
        None
    } else if entries[0].0@ == id {
        Some(0)
    } else {
        match first_index(entries.drop_first(), id) {
            Some(k) => Some(k + 1),
            None => None,
        }
    }
}

/// The first entry of a name is the first one without another of that name
/// before it, and holds the value the lookup gives.
pub proof fn lemma_first_index<'a, V>(entries: Seq<(&'a str, V)>, id: Seq<char>, n: int)
    requires
        0 <= n <= entries.len(),
        absent_before(entries, id, n),
        n < entries.len() ==> entries[n].0@ == id,
    ensures
        n < entries.len() ==> first_index(entries, id) == Some(n) && lookup(entries, id) == Some(entries[n].1),
        n == entries.len() ==> first_index(entries, id) is None && lookup(entries, id) is None,
    decreases n,
{
    if n > 0 {
        let rest = entries.drop_first();
        assert forall|k: int| 0 <= k < n - 1 implies (#[trigger] rest[k]).0@ != id by {
            assert(rest[k] == entries[k + 1]);
        }
        assert(entries[0].0@ != id);
        lemma_first_index(rest, id, n - 1);
    }
}

/// The first entry of a name is an entry of that name with none before it,
/// and holds the value the lookup gives; without one, no entry has the name.
pub proof fn lemma_first_index_valid<'a, V>(entries: Seq<(&'a str, V)>, id: Seq<char>)
    ensures
        first_index(entries, id) matches Some(k) ==> {
            &&& 0 <= k < entries.len()
            &&& entries[k].0@ == id
            &&& absent_before(entries, id, k)
            &&& lookup(entries, id) == Some(entries[k].1)
        },
        first_index(entries, id) is None ==> absent_before(entries, id, entries.len() as int) && lookup(
            entries,
            id,
        ) is None,
    decreases entries.len(),
{
    if entries.len() > 0 && entries[0].0@ != id {
        let rest = entries.drop_first();
        lemma_first_index_valid(rest, id);
        match first_index(rest, id) {
            Some(k) => {
                assert(rest[k] == entries[k + 1]);
                assert forall|j: int| 0 <= j < k + 1 implies (#[trigger] entries[j]).0@ != id by {
                    if j > 0 {
                        assert(rest[j - 1] == entries[j]);
                    }
                }
            },
            None => {
                assert forall|j: int| 0 <= j < entries.len() implies (#[trigger] entries[j]).0@ != id by {
                    if j > 0 {
                        assert(rest[j - 1] == entries[j]);
                    }
                }
            },
        }
    }
}

/// Keeping the names and changing the values in the same way keeps where the
/// first entry of each name is.
pub proof fn lemma_first_index_map<'a, V, W>(entries: Seq<(&'a str, V)>, f: spec_fn((&'a str, V)) -> (&'a str, W), id: Seq<char>)
    requires
        forall|e: (&'a str, V)| #[trigger] f(e).0 == e.0,
    ensures
        first_index(entries.map_values(f), id) == first_index(entries, id),
        first_index(entries, id) matches Some(k) ==> lookup(entries.map_values(f), id) == Some(f(entries[k]).1),
        first_index(entries, id) is None ==> lookup(entries.map_values(f), id) is None,
    decreases entries.len(),
{
    let m = entries.map_values(f);
    if entries.len() > 0 {
        assert(m.drop_first() =~= entries.drop_first().map_values(f));
        assert(m[0] == f(entries[0]));
        lemma_first_index_map(entries.drop_first(), f, id);
        lemma_first_index_valid(entries.drop_first(), id);
        if entries[0].0@ != id {
            match first_index(entries.drop_first(), id) {
                Some(k) => {
                    assert(entries.drop_first()[k] == entries[k + 1]);
                },
                None => {},
            }
        }
    }
}

/// Changing values in the same way before or after defining a name gives the
/// same entries.
pub proof fn lemma_define_map<'a, V, W>(
    entries: Seq<(&'a str, V)>,
    f: spec_fn((&'a str, V)) -> (&'a str, W),
    id: &'a str,
    value: V,
)
    requires
        forall|e: (&'a str, V)| #[trigger] f(e).0 == e.0,
    ensures
        define(entries, id, value).map_values(f) == define(entries.map_values(f), id, f((id, value)).1),
    decreases entries.len(),
{
    let m = entries.map_values(f);
    let d = define(entries, id, value);
    let e = f((id, value));
    assert(e == (id, e.1));
    if entries.len() == 0 {
        assert(d.map_values(f) =~= seq![e]);
    } else {
        assert(m[0] == f(entries[0]));
        if entries[0].0@ == id@ {
            assert(d.map_values(f) =~= m.update(0, (id, e.1)));
        } else {
            lemma_define_map(entries.drop_first(), f, id, value);
            assert(m.drop_first() =~= entries.drop_first().map_values(f));
            assert(d.map_values(f) =~= seq![m[0]] + define(entries.drop_first(), id, value).map_values(f));
        }
    }
}

/// When `value` and every value in `entries` have a property, so does every
/// value after defining a name.
pub proof fn lemma_define_all<'a, V>(entries: Seq<(&'a str, V)>, id: &'a str, value: V, p: spec_fn(V) -> bool)
    requires
        p(value),
        forall|i: int| 0 <= i < entries.len() ==> p(#[trigger] entries[i].1),
    ensures
        forall|i: int| 0 <= i < define(entries, id, value).len() ==> p(#[trigger] define(entries, id, value)[i].1),
    decreases entries.len(),
{
    if entries.len() > 0 && entries[0].0@ != id@ {
        let rest = entries.drop_first();
        assert forall|i: int| 0 <= i < rest.len() implies p(#[trigger] rest[i].1) by {
            assert(rest[i] == entries[i + 1]);
        }
        lemma_define_all(rest, id, value, p);
        let d = define(entries, id, value);
        assert forall|i: int| 0 <= i < d.len() implies p(#[trigger] d[i].1) by {
            if i > 0 {
                assert(d[i] == define(rest, id, value)[i - 1]);
            }
        }
    }
}

/// Giving the first entry of a name a new value: the name gets that value.
pub proof fn lemma_lookup_replace<'a, V>(entries: Seq<(&'a str, V)>, id: Seq<char>, k: int, value: V)
    requires
        first_index(entries, id) == Some(k),
    ensures
        lookup(entries.update(k, (entries[k].0, value)), id) == Some(value),
        first_index(entries.update(k, (entries[k].0, value)), id) == Some(k),
{
    lemma_first_index_valid(entries, id);
    let u = entries.update(k, (entries[k].0, value));
    assert(absent_before(u, id, k));
    lemma_first_index(u, id, k);
}

/// Replacing an entry by one of another name leaves the lookup of `other`
/// alone when neither is named `other`.
pub proof fn lemma_lookup_update<'a, V>(entries: Seq<(&'a str, V)>, k: int, e: (&'a str, V), other: Seq<char>)
    requires
        0 <= k < entries.len(),
        entries[k].0@ != other,
        e.0@ != other,
    ensures
        lookup(entries.update(k, e), other) == lookup(entries, other),
    decreases entries.len(),
{
    let u = entries.update(k, e);
    if k > 0 {
        assert(u[0] == entries[0]);
        assert(u.drop_first() =~= entries.drop_first().update(k - 1, e));
        lemma_lookup_update(entries.drop_first(), k - 1, e, other);
    } else {
        assert(u[0] == e);
        assert(u.drop_first() =~= entries.drop_first());
    }
}

} // verus!
