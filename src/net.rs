//! Reconnect backoff and request-head framing.
use vstd::prelude::*;

verus! {

/// Exponential backoff: each delay doubles the previous one, up to a cap.
pub struct Backoff {
    current: u64,
    max: u64,
}

impl Backoff {
    /// The delay that the next call to `next_delay` returns.
    pub closed spec fn current_ms(&self) -> u64 {
        self.current
    }

    /// The cap on delays.
    pub closed spec fn max_ms(&self) -> u64 {
        self.max
    }

    pub fn new(initial_ms: u64, max_ms: u64) -> (r: Self)
        ensures
            r.current_ms() == initial_ms,
            r.max_ms() == max_ms,
    {
        Backoff { current: initial_ms, max: max_ms }
    }

    /// Returns the current delay and doubles it for next time, capped.
    pub fn next_delay(&mut self) -> (d: u64)
        ensures
            d == old(self).current_ms(),
            final(self).current_ms() == if 2 * old(self).current_ms() < old(self).max_ms() {
                2 * old(self).current_ms()
            } else {
                old(self).max_ms() as int
            },
            final(self).max_ms() == old(self).max_ms(),
    {
        let delay = self.current;
        let doubled: u64 = if self.current > u64::MAX / 2 {
            u64::MAX
        } else {
            self.current * 2
        };
        self.current = if doubled < self.max {
            doubled
        } else {
            self.max
        };
        delay
    }

    /// Starts over from `initial_ms`, as after a successful handshake.
    pub fn reset(&mut self, initial_ms: u64)
        ensures
            final(self).current_ms() == initial_ms,
            final(self).max_ms() == old(self).max_ms(),
    {
        self.current = initial_ms;
    }
}

/// Whether `b` holds the blank line that ends a request head.
pub open spec fn has_double_crlf(b: Seq<u8>) -> bool {
    exists|i: int| 0 <= i && i + 4 <= b.len() && #[trigger] b[i] == 13 && b[i + 1] == 10 && b[i + 2] == 13 && b[i + 3] == 10
}

/// Where reading a request head stands.
#[derive(Debug, Clone, Copy, PartialEq, Eq, Structural)]
pub enum HeadProgress {
    /// The head is complete.
    Complete,
    /// Read more bytes.
    NeedMore,
    /// The limit was reached before the head ended.
    TooLarge,
}

/// Whether the bytes read so far hold a whole request head, or call for
/// more, or have reached `max` without one.
pub fn head_progress(buf: &[u8], max: usize) -> (r: HeadProgress)
    ensures
        r == (if has_double_crlf(buf@) {
            HeadProgress::Complete
        } else if buf@.len() >= max {
            HeadProgress::TooLarge
        } else {
            HeadProgress::NeedMore
        }),
{
    let n = buf.len();
    let mut i: usize = 0;
    while i < n && n - i >= 4
        invariant
            i <= n,
            n == buf@.len(),
            forall|k: int|
                0 <= k < i && k + 4 <= n ==> !(#[trigger] buf@[k] == 13 && buf@[k + 1] == 10
                    && buf@[k + 2] == 13 && buf@[k + 3] == 10),
        decreases n - i,
    {
        if buf[i] == 13 && buf[i + 1] == 10 && buf[i + 2] == 13 && buf[i + 3] == 10 {
            return HeadProgress::Complete;
        }
        i = i + 1;
    }
    if n >= max {
        HeadProgress::TooLarge
    } else {
        HeadProgress::NeedMore
    }
}

} // verus!
