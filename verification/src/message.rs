//! The payload channel across a scene transition: an order-irrelevant
//! mapping from string key to a tagged numeric or timestamp value.
//!
//! Producer and consumer agree on keys and tags out of band; a reader that
//! finds the wrong tag treats it as a fatal error (see the score display).
//! Durations travel in whole milliseconds; the two floating-point tags carry
//! the value's raw bits, which the unverified rim encodes and decodes.

use vstd::prelude::*;

verus! {

/// One tagged value of a `Message`.
///
/// `F32` and `F64` hold the raw bits of a floating-point value; the library
/// never computes with them, it only carries them across a transition.
/// `Timestamp` is whole seconds since the epoch.
#[derive(Clone, Copy, PartialEq, Eq, Structural, Debug)]
pub enum MessageValue {
    I32(i32),
    F32(u32),
    I64(i64),
    F64(u64),
    Timestamp(i64),
}

/// A string-keyed mapping of tagged values, with each key held at most once.
pub struct Message {
    pub entries: Vec<(String, MessageValue)>,
}

/// Does any entry of `s` carry the key `k`?
pub open spec fn entries_contain(s: Seq<(String, MessageValue)>, k: Seq<char>) -> bool {
    exists|i: int| 0 <= i < s.len() && s[i].0@ == k
}

/// The value stored under `k`, if any entry carries it.
pub open spec fn entries_get(s: Seq<(String, MessageValue)>, k: Seq<char>) -> Option<MessageValue> {
    if entries_contain(s, k) {
        let i = choose|i: int| 0 <= i < s.len() && s[i].0@ == k;
        Some(s[i].1)
    } else {
        None
    }
}

/// Each key occurs in at most one entry.
pub open spec fn entries_unique(s: Seq<(String, MessageValue)>) -> bool {
    forall|i: int, j: int| 0 <= i < j < s.len() ==> s[i].0@ != s[j].0@
}

/// With unique keys, any entry whose key is `k` holds the stored value.
proof fn lemma_entries_get_at(s: Seq<(String, MessageValue)>, k: Seq<char>, i: int)
    requires
        entries_unique(s),
        0 <= i < s.len(),
        s[i].0@ == k,
    ensures
        entries_get(s, k) == Some(s[i].1),
{
    assert(entries_contain(s, k));
    let j = choose|j: int| 0 <= j < s.len() && s[j].0@ == k;
    if i != j {
        if i < j {
            assert(s[i].0@ != s[j].0@);
        } else {
            assert(s[j].0@ != s[i].0@);
        }
    }
}

impl Message {
    /// The message is well formed: no key occurs twice.
    pub open spec fn wf(self) -> bool {
        entries_unique(self.entries@)
    }

    pub open spec fn spec_contains(self, k: Seq<char>) -> bool {
        entries_contain(self.entries@, k)
    }

    pub open spec fn spec_get(self, k: Seq<char>) -> Option<MessageValue> {
        entries_get(self.entries@, k)
    }

    pub fn new() -> (r: Message)
        ensures
            r.wf(),
            forall|k: Seq<char>| r.spec_get(k) == Option::<MessageValue>::None,
    {
        Message { entries: Vec::new() }
    }

    /// Store `value` under `key`, replacing any earlier value of that key.
    pub fn insert(&mut self, key: &str, value: MessageValue)
        requires
            old(self).wf(),
        ensures
            final(self).wf(),
            final(self).spec_get(key@) == Some(value),
            forall|k: Seq<char>|
                k != key@ ==> final(self).spec_get(k) == old(self).spec_get(k),
    {
        let k: String = key.to_owned();
        let ghost s0 = self.entries@;
        let mut i: usize = 0;
        while i < self.entries.len()
            invariant
                self.entries@ == s0,
                old(self).entries@ == s0,
                entries_unique(s0),
                i <= s0.len(),
                k@ == key@,
                forall|j: int| 0 <= j < i ==> s0[j].0@ != key@,
            decreases s0.len() - i,
        {
            if self.entries[i].0 == k {
                self.entries[i].1 = value;
                proof {
                    let s1 = self.entries@;
                    assert(s1 == s0.update(i as int, (s0[i as int].0, value)));
                    assert(forall|j: int| 0 <= j < s1.len() ==> s1[j].0@ == s0[j].0@);
                    lemma_entries_get_at(s1, key@, i as int);
                    assert forall|kk: Seq<char>| kk != key@ implies entries_get(s1, kk)
                        == entries_get(s0, kk) by {
                        if entries_contain(s1, kk) {
                            let w = choose|w: int| 0 <= w < s1.len() && s1[w].0@ == kk;
                            lemma_entries_get_at(s1, kk, w);
                            lemma_entries_get_at(s0, kk, w);
                        } else {
                            if entries_contain(s0, kk) {
                                let w = choose|w: int| 0 <= w < s0.len() && s0[w].0@ == kk;
                                assert(s1[w].0@ == kk);
                            }
                        }
                    }
                }
                return;
            }
            i = i + 1;
        }
        self.entries.push((k, value));
        proof {
            let s1 = self.entries@;
            assert(s1.drop_last() == s0);
            lemma_entries_get_at(s1, key@, s1.len() - 1);
            assert forall|kk: Seq<char>| kk != key@ implies entries_get(s1, kk)
                == entries_get(s0, kk) by {
                if entries_contain(s1, kk) {
                    let w = choose|w: int| 0 <= w < s1.len() && s1[w].0@ == kk;
                    assert(w < s0.len());
                    lemma_entries_get_at(s1, kk, w);
                    lemma_entries_get_at(s0, kk, w);
                } else {
                    if entries_contain(s0, kk) {
                        let w = choose|w: int| 0 <= w < s0.len() && s0[w].0@ == kk;
                        assert(s1[w].0@ == kk);
                    }
                }
            }
        }
    }

    /// Look up the value stored under `key`.
    pub fn get(&self, key: &str) -> (r: Option<&MessageValue>)
        requires
            self.wf(),
        ensures
            match r {
                Some(v) => self.spec_get(key@) == Some(*v),
                None => self.spec_get(key@) is None,
            },
    {
        let k: String = key.to_owned();
        let mut i: usize = 0;
        while i < self.entries.len()
            invariant
                self.wf(),
                i <= self.entries@.len(),
                k@ == key@,
                forall|j: int| 0 <= j < i ==> self.entries@[j].0@ != key@,
            decreases self.entries@.len() - i,
        {
            if self.entries[i].0 == k {
                proof {
                    lemma_entries_get_at(self.entries@, key@, i as int);
                }
                return Some(&self.entries[i].1);
            }
            i = i + 1;
        }
        proof {
            if entries_contain(self.entries@, key@) {
                let w = choose|w: int|
                    0 <= w < self.entries@.len() && self.entries@[w].0@ == key@;
            }
        }
        None
    }

    /// Does the message carry `key` at all?
    pub fn contains_key(&self, key: &str) -> (r: bool)
        requires
            self.wf(),
        ensures
            r == self.spec_contains(key@),
    {
        self.get(key).is_some()
    }
}

} // verus!
