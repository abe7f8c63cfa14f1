//! An owned in-memory keychain: a map from key names to secret values,
//! kept as a vector of entries with pairwise distinct keys.

use vstd::prelude::*;

verus! {

/// Secret store handed around by reference instead of living in a process
/// global.
#[derive(Debug)]
pub struct Keychain {
    entries: Vec<(String, String)>,
}

/// The value stored under `key` in `s`, scanning from the front.
pub open spec fn spec_get_from(s: Seq<(String, String)>, key: Seq<char>) -> Option<Seq<char>>
    decreases s.len(),
{
    if s.len() == 0 {
        None
    } else if s[0].0@ == key {
        Some(s[0].1@)
    } else {
        spec_get_from(s.drop_first(), key)
    }
}

/// Scanning past a prefix that does not hold `key` does not change the answer.
proof fn lemma_get_from_skip(s: Seq<(String, String)>, key: Seq<char>, i: int)
    requires
        0 <= i <= s.len(),
        forall|j: int| 0 <= j < i ==> s[j].0@ != key,
    ensures
        spec_get_from(s, key) == spec_get_from(s.skip(i), key),
    decreases i,
{
    if i > 0 {
        lemma_get_from_skip(s, key, i - 1);
        assert(s.skip(i - 1).drop_first() =~= s.skip(i));
        assert(s.skip(i - 1)[0] == s[i - 1]);
    } else {
        assert(s.skip(0) =~= s);
    }
}

impl Keychain {
    /// Keys are pairwise distinct, so each lookup has one answer.
    pub closed spec fn wf(self) -> bool {
        forall|i: int, j: int|
            0 <= i < j < self.entries@.len() ==> self.entries@[i].0@ != self.entries@[j].0@
    }

    /// The secret stored under `key`, if any.
    pub closed spec fn spec_get(self, key: Seq<char>) -> Option<Seq<char>> {
        spec_get_from(self.entries@, key)
    }

    /// An empty keychain.
    pub fn new() -> (kc: Self)
        ensures
            kc.wf(),
            forall|k: Seq<char>| kc.spec_get(k) is None,
    {
        Keychain { entries: Vec::new() }
    }

    /// The index of `key`'s entry, scanning from the front.
    fn find(&self, key: &String) -> (r: Option<usize>)
        ensures
            match r {
                Some(i) => i < self.entries@.len() && self.entries@[i as int].0@ == key@
                    && forall|j: int| 0 <= j < i ==> self.entries@[j].0@ != key@,
                None => forall|j: int|
                    0 <= j < self.entries@.len() ==> self.entries@[j].0@ != key@,
            },
    {
        let mut i: usize = 0;
        while i < self.entries.len()
            invariant
                i <= self.entries@.len(),
                forall|j: int| 0 <= j < i ==> self.entries@[j].0@ != key@,
            decreases self.entries@.len() - i,
        {
            if self.entries[i].0.eq(key) {
                return Some(i);
            }
            i = i + 1;
        }
        None
    }
}

/// Stores `value` under `key`, replacing any previous value. Afterwards
/// `key` maps to `value` and every other key is unchanged.
pub fn set_secret(kc: &mut Keychain, key: &str, value: &str)
    requires
        old(kc).wf(),
    ensures
        final(kc).wf(),
        final(kc).spec_get(key@) == Some(value@),
        forall|k: Seq<char>| k != key@ ==> final(kc).spec_get(k) == old(kc).spec_get(k),
{
    let key_s: String = key.to_owned();
    let value_s: String = value.to_owned();
    match kc.find(&key_s) {
        Some(i) => {
            let ghost before = kc.entries@;
            kc.entries.remove(i);
            kc.entries.insert(i, (key_s, value_s));
            proof {
                assert(kc.entries@ =~= before.update(i as int, (key_s, value_s)));
                assert forall|k: Seq<char>|
                    kc.spec_get(k) == spec_get_of_update(before, i as int, key@, value@, k) by {
                    lemma_update_get(before, i as int, key_s, value_s, k);
                }
                lemma_update_get_all(before, i as int, key_s, value_s);
            }
        },
        None => {
            let ghost before = kc.entries@;
            kc.entries.push((key_s, value_s));
            proof {
                lemma_push_get(before, key_s, value_s);
            }
        },
    }
}

/// What `spec_get` answers after `s[i]` is replaced by `(key, value)`.
pub open spec fn spec_get_of_update(
    s: Seq<(String, String)>,
    i: int,
    key: Seq<char>,
    value: Seq<char>,
    k: Seq<char>,
) -> Option<Seq<char>> {
    if k == key {
        Some(value)
    } else {
        spec_get_from(s, k)
    }
}

/// Replacing the entry that holds `key` rewrites `key`'s answer and keeps
/// every other key's answer.
proof fn lemma_update_get(
    s: Seq<(String, String)>,
    i: int,
    key: String,
    value: String,
    k: Seq<char>,
)
    requires
        0 <= i < s.len(),
        s[i].0@ == key@,
        forall|j: int| 0 <= j < i ==> s[j].0@ != key@,
        forall|a: int, b: int| 0 <= a < b < s.len() ==> s[a].0@ != s[b].0@,
    ensures
        spec_get_from(s.update(i, (key, value)), k) == spec_get_of_update(s, i, key@, value@, k),
    decreases i,
{
    let s2 = s.update(i, (key, value));
    if i == 0 {
        if k == key@ {
        } else if s[0].0@ == k {
            assert(false);
        } else {
            assert(s2.drop_first() =~= s.drop_first());
        }
    } else {
        if s[0].0@ == k {
        } else {
            assert(s2.drop_first() =~= s.drop_first().update(i - 1, (key, value)));
            lemma_update_get(s.drop_first(), i - 1, key, value, k);
        }
    }
}

/// Bundles [`lemma_update_get`] over every key, and well-formedness of the
/// updated sequence.
proof fn lemma_update_get_all(s: Seq<(String, String)>, i: int, key: String, value: String)
    requires
        0 <= i < s.len(),
        s[i].0@ == key@,
        forall|a: int, b: int| 0 <= a < b < s.len() ==> s[a].0@ != s[b].0@,
    ensures
        forall|a: int, b: int|
            0 <= a < b < s.update(i, (key, value)).len() ==> s.update(i, (key, value))[a].0@
                != s.update(i, (key, value))[b].0@,
{
    let s2 = s.update(i, (key, value));
    assert forall|a: int, b: int| 0 <= a < b < s2.len() implies s2[a].0@ != s2[b].0@ by {
        if a == i {
            assert(s2[b] == s[b]);
        } else if b == i {
            assert(s2[a] == s[a]);
        } else {
            assert(s2[a] == s[a] && s2[b] == s[b]);
        }
    }
}

/// Appending a key that is absent makes it answer `value` and keeps every
/// other key's answer.
proof fn lemma_push_get(s: Seq<(String, String)>, key: String, value: String)
    requires
        forall|j: int| 0 <= j < s.len() ==> s[j].0@ != key@,
    ensures
        spec_get_from(s.push((key, value)), key@) == Some(value@),
        forall|k: Seq<char>|
            k != key@ ==> spec_get_from(s.push((key, value)), k) == spec_get_from(s, k),
    decreases s.len(),
{
    let s2 = s.push((key, value));
    if s.len() == 0 {
        assert(s2[0] == (key, value));
        assert forall|k: Seq<char>| k != key@ implies spec_get_from(s2, k) == spec_get_from(
            s,
            k,
        ) by {
            assert(spec_get_from(s2.drop_first(), k) is None);
        }
    } else {
        assert(s2[0] == s[0]);
        assert(s2.drop_first() =~= s.drop_first().push((key, value)));
        assert forall|j: int| 0 <= j < s.drop_first().len() implies s.drop_first()[j].0@
            != key@ by {
            assert(s.drop_first()[j] == s[j + 1]);
        }
        lemma_push_get(s.drop_first(), key, value);
        assert forall|k: Seq<char>| k != key@ implies spec_get_from(s2, k) == spec_get_from(
            s,
            k,
        ) by {
            if s[0].0@ != k {
                assert(spec_get_from(s2.drop_first(), k) == spec_get_from(s.drop_first(), k));
            }
        }
        assert(spec_get_from(s2, key@) == Some(value@));
    }
}

/// The secret stored under `key`, or `None` when `key` is absent.
pub fn get_secret(kc: &Keychain, key: &str) -> (r: Option<String>)
    ensures
        match r {
            Some(v) => kc.spec_get(key@) == Some(v@),
            None => kc.spec_get(key@) is None,
        },
{
    let key_s: String = key.to_owned();
    match kc.find(&key_s) {
        Some(i) => {
            proof {
                lemma_get_from_skip(kc.entries@, key@, i as int);
                assert(kc.entries@.skip(i as int)[0] == kc.entries@[i as int]);
            }
            let v: String = kc.entries[i].1.clone();
            proof {
                assert(v@ == kc.entries@[i as int].1@);
            }
            Some(v)
        },
        None => {
            proof {
                lemma_get_from_skip(kc.entries@, key@, kc.entries@.len() as int);
            }
            None
        },
    }
}

/// Removes `key`'s entry if present. Afterwards `key` answers nothing and
/// every other key is unchanged.
pub fn delete_secret(kc: &mut Keychain, key: &str)
    requires
        old(kc).wf(),
    ensures
        final(kc).wf(),
        final(kc).spec_get(key@) is None,
        forall|k: Seq<char>| k != key@ ==> final(kc).spec_get(k) == old(kc).spec_get(k),
{
    let key_s: String = key.to_owned();
    match kc.find(&key_s) {
        Some(i) => {
            let ghost before = kc.entries@;
            kc.entries.remove(i);
            proof {
                lemma_remove_get(before, i as int, key@);
            }
        },
        None => {
            proof {
                lemma_get_from_skip(kc.entries@, key@, kc.entries@.len() as int);
            }
        },
    }
}

/// Removing the entry that holds `key` erases `key`'s answer and keeps every
/// other key's answer.
proof fn lemma_remove_get(s: Seq<(String, String)>, i: int, key: Seq<char>)
    requires
        0 <= i < s.len(),
        s[i].0@ == key,
        forall|j: int| 0 <= j < i ==> s[j].0@ != key,
        forall|a: int, b: int| 0 <= a < b < s.len() ==> s[a].0@ != s[b].0@,
    ensures
        spec_get_from(s.remove(i), key) is None,
        forall|k: Seq<char>| k != key ==> spec_get_from(s.remove(i), k) == spec_get_from(s, k),
        forall|a: int, b: int| 0 <= a < b < s.remove(i).len() ==> s.remove(i)[a].0@ != s.remove(
            i,
        )[b].0@,
    decreases i,
{
    let s2 = s.remove(i);
    assert forall|a: int, b: int| 0 <= a < b < s2.len() implies s2[a].0@ != s2[b].0@ by {
        let a0 = if a < i {
            a
        } else {
            a + 1
        };
        let b0 = if b < i {
            b
        } else {
            b + 1
        };
        assert(s2[a] == s[a0] && s2[b] == s[b0]);
    }
    if i == 0 {
        assert(s2 =~= s.drop_first());
        assert forall|j: int| 0 <= j < s2.len() implies s2[j].0@ != key by {
            assert(s2[j] == s[j + 1]);
        }
        lemma_absent_get_none(s2, key);
    } else {
        assert(s2[0] == s[0]);
        assert(s2.drop_first() =~= s.drop_first().remove(i - 1));
        assert forall|j: int| 0 <= j < i - 1 implies s.drop_first()[j].0@ != key by {
            assert(s.drop_first()[j] == s[j + 1]);
        }
        assert forall|a: int, b: int|
            0 <= a < b < s.drop_first().len() implies s.drop_first()[a].0@ != s.drop_first()[b].0@
        by {
            assert(s.drop_first()[a] == s[a + 1] && s.drop_first()[b] == s[b + 1]);
        }
        assert(s.drop_first()[i - 1] == s[i as int]);
        lemma_remove_get(s.drop_first(), i - 1, key);
        assert forall|k: Seq<char>| k != key implies spec_get_from(s2, k) == spec_get_from(
            s,
            k,
        ) by {
            if s[0].0@ != k {
                assert(spec_get_from(s2.drop_first(), k) == spec_get_from(s.drop_first(), k));
            }
        }
        assert(spec_get_from(s2, key) is None);
    }
}

/// A key held by no entry answers nothing.
proof fn lemma_absent_get_none(s: Seq<(String, String)>, key: Seq<char>)
    requires
        forall|j: int| 0 <= j < s.len() ==> s[j].0@ != key,
    ensures
        spec_get_from(s, key) is None,
    decreases s.len(),
{
    if s.len() > 0 {
        lemma_absent_get_none(s.drop_first(), key);
    }
}

} // verus!
