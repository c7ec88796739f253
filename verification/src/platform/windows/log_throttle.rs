//! Rate limiting of runtime log lines: a line is written only when no line with the same key
//! was written within its cooldown.
use vstd::prelude::*;
use crate::state::{distinct_keys, key_index_from, lemma_key_index_absent, lemma_key_index_from, lemma_key_index_of};

verus! {

/// `a - b`, or zero when `b` is larger (`u128::saturating_sub`).
pub open spec fn saturating_diff(a: u128, b: u128) -> u128 {
    if a >= b {
        (a - b) as u128
    } else {
        0
    }
}

/// When a line with `key` was last written, if ever.
pub open spec fn last_written(stamps: Seq<(Seq<char>, u128)>, key: Seq<char>) -> Option<u128> {
    match key_index_from(stamps, key, 0) {
        Some(i) => Some(stamps[i].1),
        None => None,
    }
}

/// Whether a line with `key` may be written at `now`: it never was, or its cooldown has passed.
pub open spec fn admits(stamps: Seq<(Seq<char>, u128)>, key: Seq<char>, now: u128, cooldown_ms: u128) -> bool {
    match last_written(stamps, key) {
        Some(t) => saturating_diff(now, t) >= cooldown_ms,
        None => true,
    }
}

/// The write times after a line with `key` was written at `now`.
pub open spec fn stamped(stamps: Seq<(Seq<char>, u128)>, key: Seq<char>, now: u128) -> Seq<(Seq<char>, u128)> {
    match key_index_from(stamps, key, 0) {
        Some(i) => stamps.update(i, (key, now)),
        None => stamps.push((key, now)),
    }
}

/// The time at which each log key was last written.
pub struct LogThrottle {
    entries: Vec<(String, u128)>,
}

impl View for LogThrottle {
    type V = Seq<(Seq<char>, u128)>;

    closed spec fn view(&self) -> Seq<(Seq<char>, u128)> {
        self.entries@.map_values(|e: (String, u128)| (e.0@, e.1))
    }
}

impl LogThrottle {
    #[verifier::type_invariant]
    spec fn inv(&self) -> bool {
        distinct_keys(self@)
    }

    /// A throttle under which every key may be written.
    pub fn new() -> (t: Self)
        ensures
            t@ == Seq::<(Seq<char>, u128)>::empty(),
    {
        let t = LogThrottle { entries: Vec::new() };
        assert(t@ =~= Seq::<(Seq<char>, u128)>::empty());
        t
    }

    fn find(&self, key: &String) -> (r: Option<usize>)
        ensures
            match r {
                Some(i) => key_index_from(self@, key@, 0) == Some(i as int),
                None => key_index_from(self@, key@, 0) is None,
            },
    {
        proof {
            use_type_invariant(self);
        }
        let mut i: usize = 0;
        while i < self.entries.len()
            invariant
                i <= self.entries@.len(),
                self@.len() == self.entries@.len(),
                distinct_keys(self@),
                forall|j: int| 0 <= j < i ==> self@[j].0 != key@,
            decreases self.entries@.len() - i,
        {
            if self.entries[i].0 == *key {
                proof {
                    assert(self@[i as int].0 == key@);
                    lemma_key_index_of(self@, i as int);
                }
                return Some(i);
            }
            i = i + 1;
        }
        proof {
            lemma_key_index_from(self@, key@, 0);
        }
        None
    }

    /// Whether a line with `key` may be written at `now` with a cooldown of `cooldown_ms`; when
    /// it may, `now` becomes the time at which `key` was last written.
    pub fn should_log(&mut self, key: String, now: u128, cooldown_ms: u128) -> (b: bool)
        ensures
            b == admits(old(self)@, key@, now, cooldown_ms),
            final(self)@ == if b {
                stamped(old(self)@, key@, now)
            } else {
                old(self)@
            },
    {
        proof {
            use_type_invariant(&*self);
        }
        let ghost before = self@;
        match self.find(&key) {
            Some(i) => {
                proof {
                    lemma_key_index_from(before, key@, 0);
                }
                assert(self@[i as int].1 == self.entries@[i as int].1);
                let last = self.entries[i].1;
                if now.saturating_sub(last) < cooldown_ms {
                    false
                } else {
                    let mut entries: Vec<(String, u128)> = Vec::new();
                    std::mem::swap(&mut entries, &mut self.entries);
                    entries.set(i, (key, now));
                    assert(entries@.map_values(|e: (String, u128)| (e.0@, e.1)) =~= before.update(
                        i as int, (key@, now)));
                    self.entries = entries;
                    true
                }
            },
            None => {
                proof {
                    lemma_key_index_absent(before, key@, 0);
                }
                let mut entries: Vec<(String, u128)> = Vec::new();
                std::mem::swap(&mut entries, &mut self.entries);
                entries.push((key, now));
                assert(entries@.map_values(|e: (String, u128)| (e.0@, e.1)) =~= before.push((key@, now)));
                self.entries = entries;
                true
            },
        }
    }
}

/// A line written at `t` holds back the same key until its cooldown has passed, and lets it
/// through afterwards; other keys are not affected, and a key never written is let through.
pub proof fn lemma_throttle_window(stamps: Seq<(Seq<char>, u128)>, key: Seq<char>, t: u128, later: u128,
    cooldown_ms: u128, other: Seq<char>)
    requires
        distinct_keys(stamps),
        t <= later,
        other != key,
    ensures
        last_written(stamped(stamps, key, t), key) == Some(t),
        later - t < cooldown_ms ==> !admits(stamped(stamps, key, t), key, later, cooldown_ms),
        later - t >= cooldown_ms ==> admits(stamped(stamps, key, t), key, later, cooldown_ms),
        last_written(stamped(stamps, key, t), other) == last_written(stamps, other),
        last_written(stamps, key) is None ==> admits(stamps, key, t, cooldown_ms),
{
    let after = stamped(stamps, key, t);
    lemma_key_index_from(stamps, key, 0);
    lemma_key_index_from(stamps, other, 0);
    match key_index_from(stamps, key, 0) {
        Some(i) => {
            assert(after[i].0 == key);
            assert(distinct_keys(after)) by {
                assert forall|a: int, b: int| 0 <= a < b < after.len() implies after[a].0 != after[b].0 by {
                    if a != i && b != i {
                        assert(after[a] == stamps[a] && after[b] == stamps[b]);
                    } else if a == i {
                        assert(after[b] == stamps[b]);
                    } else {
                        assert(after[a] == stamps[a]);
                    }
                }
            }
            lemma_key_index_of(after, i);
            match key_index_from(stamps, other, 0) {
                Some(j) => {
                    assert(j != i);
                    assert(after[j] == stamps[j]);
                    lemma_key_index_of(after, j);
                },
                None => {
                    lemma_key_index_absent(stamps, other, 0);
                    lemma_key_index_from(after, other, 0);
                    if key_index_from(after, other, 0) is Some {
                        let j = key_index_from(after, other, 0)->0;
                        assert(j != i);
                        assert(after[j] == stamps[j]);
                    }
                },
            }
        },
        None => {
            lemma_key_index_absent(stamps, key, 0);
            let n = stamps.len() as int;
            assert(after[n].0 == key);
            assert(distinct_keys(after)) by {
                assert forall|a: int, b: int| 0 <= a < b < after.len() implies after[a].0 != after[b].0 by {
                    if b == n {
                        assert(after[a] == stamps[a]);
                    } else {
                        assert(after[a] == stamps[a] && after[b] == stamps[b]);
                    }
                }
            }
            lemma_key_index_of(after, n);
            match key_index_from(stamps, other, 0) {
                Some(j) => {
                    assert(after[j] == stamps[j]);
                    lemma_key_index_of(after, j);
                },
                None => {
                    lemma_key_index_absent(stamps, other, 0);
                    lemma_key_index_from(after, other, 0);
                    if key_index_from(after, other, 0) is Some {
                        let j = key_index_from(after, other, 0)->0;
                        assert(j != n);
                        assert(after[j] == stamps[j]);
                    }
                },
            }
        },
    }
}

} // verus!
