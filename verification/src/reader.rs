//! Response Reader: accumulates the device's reply into a bounded buffer.
//!
//! The transport delivers data in arbitrary-sized chunks, including
//! zero-length reads when nothing is available yet. The reader is a state
//! machine driven from outside: the caller performs one bounded `read`
//! against the transport, hands the outcome in as an [`Event`], and obeys
//! the returned [`Action`] (poll again after a delay, or stop). Accumulation
//! is delimiter-terminated: the exchange completes as soon as the buffer
//! holds a `\n` anywhere; a hard ceiling on the number of polls keeps the
//! exchange from running forever when the device never replies.

use vstd::prelude::*;

verus! {

/// Delay, in milliseconds, before the next read after a poll that returned
/// no data.
pub const POLL_DELAY_MS: u64 = 100;

/// Outcome of one bounded read against the transport: a non-empty chunk, or
/// nothing available yet.
pub enum Event {
    Data(Vec<u8>),
    Empty,
}

/// What the caller must do next.
#[derive(Clone, Copy, PartialEq, Eq, Structural, Debug)]
pub enum Action {
    /// Read again after waiting `delay_ms` milliseconds.
    Poll { delay_ms: u64 },
    /// The reply is complete: render the buffer.
    Complete,
    /// The deadline passed and nothing at all arrived: a distinct
    /// no-response condition, not an empty reply.
    NoResponse,
    /// The chunk would push the buffer past its capacity; the exchange
    /// fails loudly rather than truncating.
    Overflow,
}

/// Accumulation state for one request/response exchange.
pub struct Reader {
    /// Bytes received so far, in arrival order.
    pub buf: Vec<u8>,
    /// Upper bound the buffer may never exceed.
    pub capacity: usize,
    /// Events consumed so far.
    pub polls: u64,
    /// Hard ceiling on events: once reached, the exchange ends.
    pub max_polls: u64,
}

/// The bytes an event carries.
pub open spec fn event_bytes(ev: Event) -> Seq<u8> {
    match ev {
        Event::Data(d) => d@,
        Event::Empty => Seq::empty(),
    }
}

/// Whether the buffer holds the reply delimiter anywhere.
pub open spec fn contains_newline(s: Seq<u8>) -> bool {
    exists|i: int| 0 <= i < s.len() && s[i] == 10u8
}

impl Reader {
    /// Well-formedness: the buffer is within capacity and the poll count
    /// within its ceiling.
    pub open spec fn wf(self) -> bool {
        self.buf@.len() <= self.capacity && self.polls <= self.max_polls
    }

    /// The buffer after one step: the chunk is appended when it fits, and
    /// left off entirely when it would exceed capacity.
    pub open spec fn step_buf_spec(self, ev: Event) -> Seq<u8> {
        let grown = self.buf@ + event_bytes(ev);
        if grown.len() <= self.capacity {
            grown
        } else {
            self.buf@
        }
    }

    /// The action one step returns: overflow when the chunk does not fit;
    /// completion as soon as the delimiter is present, or at the deadline
    /// with data in hand; a distinct no-response outcome at the deadline
    /// with an empty buffer; otherwise another poll, delayed only when this
    /// event brought nothing.
    pub open spec fn step_action_spec(self, ev: Event) -> Action {
        let grown = self.buf@ + event_bytes(ev);
        if grown.len() > self.capacity {
            Action::Overflow
        } else if contains_newline(grown) {
            Action::Complete
        } else if self.polls + 1 >= self.max_polls {
            if grown.len() == 0 {
                Action::NoResponse
            } else {
                Action::Complete
            }
        } else {
            Action::Poll {
                delay_ms: if event_bytes(ev).len() == 0 {
                    POLL_DELAY_MS
                } else {
                    0
                },
            }
        }
    }

    /// A fresh reader for one exchange.
    pub fn new(capacity: usize, max_polls: u64) -> (r: Reader)
        ensures
            r.wf(),
            r.buf@ == Seq::<u8>::empty(),
            r.capacity == capacity,
            r.polls == 0,
            r.max_polls == max_polls,
    {
        Reader { buf: Vec::new(), capacity, polls: 0, max_polls }
    }

    /// Consumes one transport event and says what to do next.
    pub fn step(&mut self, ev: Event) -> (a: Action)
        requires
            old(self).wf(),
        ensures
            final(self).wf(),
            final(self).capacity == old(self).capacity,
            final(self).max_polls == old(self).max_polls,
            final(self).polls == if old(self).polls < old(self).max_polls {
                old(self).polls + 1
            } else {
                old(self).polls as int
            },
            final(self).buf@ == old(self).step_buf_spec(ev),
            a == old(self).step_action_spec(ev),
    {
        if self.polls < self.max_polls {
            self.polls = self.polls + 1;
        }
        let deadline = self.polls >= self.max_polls;
        let mut had_data = false;
        match ev {
            Event::Data(mut d) => {
                if d.len() > 0 {
                    had_data = true;
                    if d.len() > self.capacity - self.buf.len() {
                        return Action::Overflow;
                    }
                    self.buf.append(&mut d);
                }
            },
            Event::Empty => {},
        }
        assert(self.buf@ == old(self).step_buf_spec(ev));
        if has_newline(&self.buf) {
            Action::Complete
        } else if deadline {
            if self.buf.len() == 0 {
                Action::NoResponse
            } else {
                Action::Complete
            }
        } else {
            Action::Poll { delay_ms: if had_data { 0 } else { POLL_DELAY_MS } }
        }
    }

    /// Hands the accumulated reply out for rendering.
    pub fn into_buffer(self) -> (r: Vec<u8>)
        ensures
            r@ == self.buf@,
    {
        self.buf
    }
}

/// Whether the buffer holds the `\n` delimiter.
fn has_newline(v: &Vec<u8>) -> (r: bool)
    ensures
        r == contains_newline(v@),
{
    let n = v.len();
    let mut i: usize = 0;
    while i < n
        invariant
            i <= n,
            n == v@.len(),
            forall|k: int| 0 <= k < i ==> v@[k] != 10u8,
        decreases n - i,
    {
        if v[i] == 10u8 {
            return true;
        }
        i = i + 1;
    }
    false
}

/// The poll discipline stated for every reachable state: the buffer never
/// exceeds capacity, and an event that brought no data leaves the buffer
/// alone and, while the delimiter has not arrived and the deadline is not
/// reached, leads to another poll after the configured delay — never to an
/// early end of the exchange.
pub proof fn lemma_reader_poll_discipline(pre: Reader, ev: Event)
    requires
        pre.wf(),
    ensures
        pre.step_buf_spec(ev).len() <= pre.capacity,
        event_bytes(ev).len() == 0 ==> pre.step_buf_spec(ev) == pre.buf@,
        event_bytes(ev).len() == 0 && !contains_newline(pre.buf@) && pre.polls + 1
            < pre.max_polls ==> pre.step_action_spec(ev) == (Action::Poll {
            delay_ms: POLL_DELAY_MS,
        }),
{
    if event_bytes(ev).len() == 0 {
        assert(pre.buf@ + event_bytes(ev) =~= pre.buf@);
    }
}

} // verus!
