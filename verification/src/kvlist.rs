//! String-keyed association lists with first-match lookup.
//!
//! The health tracker (keyed by source URL) and the cache store (keyed by
//! cache token) both keep their records in a `Vec<(String, V)>`; this module
//! gives lookup its meaning and the lemmas that updates, insertions and
//! removals need.

use vstd::prelude::*;

use crate::strutil;

verus! {

/// The value under the first entry whose key is `key`, if any.
pub open spec fn kv_lookup<V>(s: Seq<(String, V)>, key: Seq<char>) -> Option<V>
    decreases s.len(),
{
    if s.len() == 0 {
        None
    } else if s[0].0@ == key {
        Some(s[0].1)
    } else {
        kv_lookup(s.skip(1), key)
    }
}

/// Unique keys.
pub open spec fn kv_unique<V>(s: Seq<(String, V)>) -> bool {
    forall|i: int, j: int|
        0 <= i < j < s.len() ==> (#[trigger] s[i]).0@ != (#[trigger] s[j]).0@
}

pub proof fn lemma_kv_lookup_skip<V>(s: Seq<(String, V)>, key: Seq<char>, i: int)
    requires
        0 <= i <= s.len(),
        forall|j: int| 0 <= j < i ==> (#[trigger] s[j]).0@ != key,
    ensures
        kv_lookup(s, key) == kv_lookup(s.skip(i), key),
    decreases i,
{
    if i == 0 {
        assert(s.skip(0) =~= s);
    } else {
        lemma_kv_lookup_skip(s, key, i - 1);
        let rest = s.skip(i - 1);
        assert(rest[0] == s[i - 1]);
        assert(s[i - 1].0@ != key);
        assert(kv_lookup(rest, key) == kv_lookup(rest.skip(1), key));
        assert(rest.skip(1) =~= s.skip(i));
    }
}

/// The first match wins.
pub proof fn lemma_kv_lookup_at<V>(s: Seq<(String, V)>, key: Seq<char>, i: int)
    requires
        0 <= i < s.len(),
        forall|j: int| 0 <= j < i ==> (#[trigger] s[j]).0@ != key,
        s[i].0@ == key,
    ensures
        kv_lookup(s, key) == Some(s[i].1),
{
    lemma_kv_lookup_skip(s, key, i);
    assert(s.skip(i)[0] == s[i]);
}

pub proof fn lemma_kv_lookup_none<V>(s: Seq<(String, V)>, key: Seq<char>)
    requires
        forall|j: int| 0 <= j < s.len() ==> (#[trigger] s[j]).0@ != key,
    ensures
        kv_lookup(s, key) is None,
{
    lemma_kv_lookup_skip(s, key, s.len() as int);
    assert(s.skip(s.len() as int).len() == 0);
}

/// Replacing the entry at `i` by one with the same key changes only that
/// key's binding.
pub proof fn lemma_kv_update<V>(s: Seq<(String, V)>, i: int, x: (String, V), u: Seq<char>)
    requires
        0 <= i < s.len(),
        s[i].0@ == x.0@,
        forall|j: int| 0 <= j < i ==> (#[trigger] s[j]).0@ != x.0@,
    ensures
        kv_lookup(s.update(i, x), x.0@) == Some(x.1),
        u != x.0@ ==> kv_lookup(s.update(i, x), u) == kv_lookup(s, u),
    decreases i,
{
    let t = s.update(i, x);
    assert forall|j: int| 0 <= j < i implies (#[trigger] t[j]).0@ != x.0@ by {
        assert(t[j] == s[j]);
    }
    assert(t[i].0@ == x.0@);
    lemma_kv_lookup_at(t, x.0@, i);
    if u != x.0@ {
        if i == 0 {
            if s[0].0@ == u {
            } else {
                assert(t.skip(1) =~= s.skip(1));
            }
        } else {
            assert(t[0] == s[0]);
            if s[0].0@ == u {
            } else {
                assert(t.skip(1) =~= s.skip(1).update(i - 1, x));
                assert(s.skip(1)[i - 1] == s[i]);
                assert forall|j: int| 0 <= j < i - 1 implies (#[trigger] s.skip(1)[j]).0@
                    != x.0@ by {
                    assert(s.skip(1)[j] == s[j + 1]);
                }
                lemma_kv_update(s.skip(1), i - 1, x, u);
            }
        }
    }
}

/// Appending a new entry adds a binding for its key when the key was absent
/// and changes no other key's binding.
pub proof fn lemma_kv_push<V>(s: Seq<(String, V)>, x: (String, V), u: Seq<char>)
    ensures
        kv_lookup(s, u) is Some ==> kv_lookup(s.push(x), u) == kv_lookup(s, u),
        kv_lookup(s, u) is None && u == x.0@ ==> kv_lookup(s.push(x), u) == Some(x.1),
        kv_lookup(s, u) is None && u != x.0@ ==> kv_lookup(s.push(x), u) is None,
    decreases s.len(),
{
    if s.len() == 0 {
        assert(s.push(x)[0] == x);
        assert(s.push(x).skip(1) =~= Seq::<(String, V)>::empty());
        if u == x.0@ {
            assert(kv_lookup(s.push(x), u) == Some(x.1));
        } else {
            assert(kv_lookup(s.push(x), u) == kv_lookup(s.push(x).skip(1), u));
            assert(kv_lookup(s.push(x), u) is None);
        }
    } else {
        assert(s.push(x)[0] == s[0]);
        if s[0].0@ == u {
            assert(kv_lookup(s.push(x), u) == Some(s[0].1));
        } else {
            assert(s.push(x).skip(1) =~= s.skip(1).push(x));
            lemma_kv_push(s.skip(1), x, u);
            assert(kv_lookup(s.push(x), u) == kv_lookup(s.skip(1).push(x), u));
            assert(kv_lookup(s, u) == kv_lookup(s.skip(1), u));
        }
    }
}

/// Removing the first entry of a key leaves every other key's binding alone;
/// with unique keys the removed key becomes absent.
pub proof fn lemma_kv_remove<V>(s: Seq<(String, V)>, i: int, u: Seq<char>)
    requires
        0 <= i < s.len(),
        forall|j: int| 0 <= j < i ==> (#[trigger] s[j]).0@ != s[i].0@,
    ensures
        u != s[i].0@ ==> kv_lookup(s.remove(i), u) == kv_lookup(s, u),
        kv_unique(s) ==> kv_lookup(s.remove(i), s[i].0@) is None,
    decreases i,
{
    let t = s.remove(i);
    if u != s[i].0@ {
        if i == 0 {
            assert(t =~= s.skip(1));
        } else {
            assert(t[0] == s[0]);
            if s[0].0@ == u {
            } else {
                assert(t.skip(1) =~= s.skip(1).remove(i - 1));
                assert(s.skip(1)[i - 1] == s[i]);
                assert forall|j: int| 0 <= j < i - 1 implies (#[trigger] s.skip(1)[j]).0@ != s.skip(
                    1,
                )[i - 1].0@ by {
                    assert(s.skip(1)[j] == s[j + 1]);
                }
                lemma_kv_remove(s.skip(1), i - 1, u);
            }
        }
    }
    if kv_unique(s) {
        assert forall|j: int| 0 <= j < t.len() implies (#[trigger] t[j]).0@ != s[i].0@ by {
            if j < i {
                assert(t[j] == s[j]);
            } else {
                assert(t[j] == s[j + 1]);
            }
        }
        lemma_kv_lookup_none(t, s[i].0@);
    }
}

/// Finds the first entry carrying `key`.
pub fn kv_find<V>(v: &Vec<(String, V)>, key: &str) -> (r: Option<usize>)
    ensures
        match r {
            Some(i) => i < v@.len() && v@[i as int].0@ == key@ && kv_lookup(v@, key@) == Some(
                v@[i as int].1,
            ) && forall|j: int| 0 <= j < i ==> (#[trigger] v@[j]).0@ != key@,
            None => kv_lookup(v@, key@) is None && forall|j: int|
                0 <= j < v@.len() ==> (#[trigger] v@[j]).0@ != key@,
        },
{
    let mut i: usize = 0;
    while i < v.len()
        invariant
            i <= v.len(),
            forall|j: int| 0 <= j < i ==> (#[trigger] v@[j]).0@ != key@,
        decreases v.len() - i,
    {
        if strutil::str_eq(v[i].0.as_str(), key) {
            proof {
                lemma_kv_lookup_at(v@, key@, i as int);
            }
            return Some(i);
        }
        i += 1;
    }
    proof {
        lemma_kv_lookup_none(v@, key@);
    }
    None
}

} // verus!
