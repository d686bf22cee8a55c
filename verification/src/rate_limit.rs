//! A fixed-window attempt counter per key.
//!
//! Time is a count of milliseconds on a clock that does not go back; the
//! caller reads the clock.

use crate::text::{chars_of, same_chars};
use vstd::prelude::*;

verus! {

/// The attempts counted for one key: how many, and when the window opened.
#[derive(Clone, Copy, Debug, PartialEq, Eq, Structural)]
pub struct Window {
    pub count: u32,
    pub start: u64,
}

/// The record of one key.
#[derive(Debug)]
pub struct Attempts {
    pub key: String,
    pub window: Window,
}

/// The limiter: its two settings and one record for each key seen.
///
/// Where a key has more than one record, the first one counts; the limiter
/// itself never adds a second one.
#[derive(Debug)]
pub struct RateLimiter {
    pub window: u64,
    pub max_attempts: u32,
    pub records: Vec<Attempts>,
}

/// Whether the window that opened at `start` is over at `now`.
pub open spec fn elapsed(start: u64, now: u64, window: u64) -> bool {
    now - start >= window
}

/// Whether an attempt at `now` is limited, given the window recorded for its
/// key before.
pub open spec fn limited(prev: Option<Window>, now: u64, window: u64, max_attempts: u32) -> bool {
    match prev {
        Some(w) => !elapsed(w.start, now, window) && w.count >= max_attempts,
        None => false,
    }
}

/// The window recorded for a key after an attempt at `now`.
///
/// A first attempt and an attempt after the window is over open a new window
/// with one attempt in it. Within the window an attempt is counted as long as
/// the count is under the maximum; at the maximum the record stays as it is.
pub open spec fn recorded(prev: Option<Window>, now: u64, window: u64, max_attempts: u32) -> Window {
    match prev {
        Some(w) => if elapsed(w.start, now, window) {
            Window { count: 1, start: now }
        } else if w.count < max_attempts {
            Window { count: (w.count + 1) as u32, start: w.start }
        } else {
            w
        },
        None => Window { count: 1, start: now },
    }
}

/// The window of the first of the records from index `from` on whose key is
/// `key`.
pub open spec fn window_of(records: Seq<Attempts>, key: Seq<char>, from: int) -> Option<Window>
    decreases records.len() - from,
{
    if from < 0 || from >= records.len() {
        None
    } else if records[from].key@ == key {
        Some(records[from].window)
    } else {
        window_of(records, key, from + 1)
    }
}

/// The record that follows `w` when a client makes attempts at the given
/// times, one after another.
pub open spec fn after_attempts(
    prev: Option<Window>,
    times: Seq<u64>,
    window: u64,
    max_attempts: u32,
) -> Option<Window>
    decreases times.len(),
{
    if times.len() == 0 {
        prev
    } else {
        Some(
            recorded(
                after_attempts(prev, times.drop_last(), window, max_attempts),
                times.last(),
                window,
                max_attempts,
            ),
        )
    }
}

impl RateLimiter {
    /// A limiter that has seen no key.
    pub fn new(window: u64, max_attempts: u32) -> (r: Self)
        ensures
            r.window == window,
            r.max_attempts == max_attempts,
            r.records@.len() == 0,
    {
        RateLimiter { window, max_attempts, records: Vec::new() }
    }

    /// The window recorded for `key`, if any.
    pub open spec fn window_for(&self, key: Seq<char>) -> Option<Window> {
        window_of(self.records@, key, 0)
    }

    /// Index of the first record for `key`.
    fn position(&self, key: &str) -> (r: Option<usize>)
        ensures
            match r {
                Some(i) => i < self.records@.len() && self.records@[i as int].key@ == key@
                    && self.window_for(key@) == Some(self.records@[i as int].window)
                    && forall|k: int| 0 <= k < i ==> (#[trigger] self.records@[k]).key@ != key@,
                None => self.window_for(key@) is None && forall|k: int|
                    0 <= k < self.records@.len() ==> (#[trigger] self.records@[k]).key@ != key@,
            },
    {
        let wanted = chars_of(key);
        let mut i: usize = 0;
        while i < self.records.len()
            invariant
                i <= self.records@.len(),
                wanted@ == key@,
                self.window_for(key@) == window_of(self.records@, key@, i as int),
                forall|k: int| 0 <= k < i ==> (#[trigger] self.records@[k]).key@ != key@,
            decreases self.records@.len() - i,
        {
            let name = chars_of(self.records[i].key.as_str());
            if same_chars(&name, &wanted) {
                return Some(i);
            }
            i += 1;
        }
        None
    }

    /// Counts an attempt for `key` at time `now` and says whether it is
    /// limited.
    pub fn is_limited(&mut self, key: &str, now: u64) -> (r: bool)
        ensures
            r == limited(old(self).window_for(key@), now, old(self).window, old(self).max_attempts),
            final(self).window_for(key@) == Some(
                recorded(
                    old(self).window_for(key@),
                    now,
                    old(self).window,
                    old(self).max_attempts,
                ),
            ),
            forall|other: Seq<char>|
                other != key@ ==> final(self).window_for(other) == old(self).window_for(other),
            final(self).window == old(self).window,
            final(self).max_attempts == old(self).max_attempts,
    {
        match self.position(key) {
            Some(i) => {
                let w = self.records[i].window;
                let over = now >= w.start && now - w.start >= self.window;
                let next = if over {
                    Window { count: 1, start: now }
                } else if w.count < self.max_attempts {
                    Window { count: w.count + 1, start: w.start }
                } else {
                    w
                };
                let record = Attempts { key: key.to_owned(), window: next };
                self.records.set(i, record);
                proof {
                    lemma_window_of_update(old(self).records@, self.records@, i as int, 0);
                    assert forall|other: Seq<char>| other != key@ implies self.window_for(other)
                        == old(self).window_for(other) by {
                        lemma_window_of_other(old(self).records@, self.records@, i as int, other, 0);
                    }
                }
                !over && w.count >= self.max_attempts
            },
            None => {
                let record = Attempts { key: key.to_owned(), window: Window { count: 1, start: now } };
                self.records.push(record);
                proof {
                    lemma_window_of_push(old(self).records@, record, key@, 0);
                    assert forall|other: Seq<char>| other != key@ implies self.window_for(other)
                        == old(self).window_for(other) by {
                        lemma_window_of_push(old(self).records@, record, other, 0);
                    }
                }
                false
            },
        }
    }
}

/// The answer to act on when the limiter may have been out of reach: `None`
/// stands for a limiter that could not be asked, and counts as limited.
pub fn fail_safe(answer: Option<bool>) -> (r: bool)
    ensures
        r == match answer {
            Some(b) => b,
            None => true,
        },
{
    match answer {
        Some(b) => b,
        None => true,
    }
}

proof fn lemma_window_of_update(before: Seq<Attempts>, after: Seq<Attempts>, i: int, from: int)
    requires
        0 <= from <= i < before.len(),
        after.len() == before.len(),
        after[i].key@ == before[i].key@,
        forall|k: int| 0 <= k < before.len() && k != i ==> after[k] == before[k],
        forall|k: int| 0 <= k < i ==> (#[trigger] before[k]).key@ != before[i].key@,
    ensures
        window_of(after, before[i].key@, from) == Some(after[i].window),
    decreases i - from,
{
    if from < i {
        lemma_window_of_update(before, after, i, from + 1);
    }
}

proof fn lemma_window_of_other(
    before: Seq<Attempts>,
    after: Seq<Attempts>,
    i: int,
    other: Seq<char>,
    from: int,
)
    requires
        0 <= from,
        0 <= i < before.len(),
        after.len() == before.len(),
        after[i].key@ == before[i].key@,
        before[i].key@ != other,
        forall|k: int| 0 <= k < before.len() && k != i ==> after[k] == before[k],
    ensures
        window_of(after, other, from) == window_of(before, other, from),
    decreases before.len() - from,
{
    if from < before.len() {
        lemma_window_of_other(before, after, i, other, from + 1);
    }
}

proof fn lemma_window_of_push(before: Seq<Attempts>, record: Attempts, key: Seq<char>, from: int)
    requires
        0 <= from,
        window_of(before, key, from) is None || record.key@ != key,
    ensures
        window_of(before.push(record), key, from) == if window_of(before, key, from) is Some {
            window_of(before, key, from)
        } else if record.key@ == key && from <= before.len() {
            Some(record.window)
        } else {
            None
        },
    decreases before.len() - from,
{
    let after = before.push(record);
    if from < before.len() {
        lemma_window_of_push(before, record, key, from + 1);
    } else if from == before.len() {
        assert(window_of(after, key, from + 1) is None);
    }
}

/// Attempts that all fall into the window opened by the first of them are
/// counted one by one up to the maximum.
proof fn lemma_counting(times: Seq<u64>, window: u64, max_attempts: u32)
    requires
        1 <= times.len() <= max_attempts,
        forall|i: int| 0 <= i < times.len() ==> times[0] <= #[trigger] times[i] && times[i] - times[0] < window,
    ensures
        after_attempts(None, times, window, max_attempts) == Some(
            Window { count: times.len() as u32, start: times[0] },
        ),
    decreases times.len(),
{
    let shorter = times.drop_last();
    if times.len() == 1 {
        assert(after_attempts(None, shorter, window, max_attempts) == None::<Window>);
    } else {
        lemma_counting(shorter, window, max_attempts);
    }
}

/// With a maximum of at least one attempt, of `max_attempts + 1` attempts for
/// one key that all fall into the window opened by the first, none but the
/// last is limited, and the last is.
pub proof fn law_limit_after_max_attempts(times: Seq<u64>, window: u64, max_attempts: u32)
    requires
        max_attempts >= 1,
        times.len() == max_attempts + 1,
        forall|i: int| 0 <= i < times.len() ==> times[0] <= #[trigger] times[i] && times[i] - times[0] < window,
    ensures
        forall|i: int|
            0 <= i < max_attempts ==> !limited(
                after_attempts(None, times.take(i), window, max_attempts),
                #[trigger] times[i],
                window,
                max_attempts,
            ),
        limited(
            after_attempts(None, times.take(max_attempts as int), window, max_attempts),
            times[max_attempts as int],
            window,
            max_attempts,
        ),
{
    assert forall|i: int| 0 <= i < max_attempts implies !limited(
        after_attempts(None, times.take(i), window, max_attempts),
        #[trigger] times[i],
        window,
        max_attempts,
    ) by {
        if i > 0 {
            let seen = times.take(i);
            lemma_counting(seen, window, max_attempts);
        }
    }
    let seen = times.take(max_attempts as int);
    lemma_counting(seen, window, max_attempts);
}

/// An attempt made once the window is over is not limited, whatever was
/// counted before, and opens a new window with that one attempt in it.
pub proof fn law_window_elapsed_resets(prev: Window, now: u64, window: u64, max_attempts: u32)
    requires
        elapsed(prev.start, now, window),
    ensures
        !limited(Some(prev), now, window, max_attempts),
        recorded(Some(prev), now, window, max_attempts) == (Window { count: 1, start: now }),
{
}

} // verus!
