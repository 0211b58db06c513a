//! The state of a client connection: whether it is up, and how long to wait
//! before the next attempt to bring it up.
//!
//! Connecting, sending and receiving are the caller's. After each attempt
//! to connect the caller reports the outcome and is told whether to give
//! up or for how long to sleep before it tries again.

use crate::error::{ErrorView, WindError};
use crate::text::join;
use vstd::prelude::*;

verus! {

/// The wait before the first new attempt, in milliseconds.
pub const INITIAL_RECONNECT_DELAY_MS: u64 = 1000;

/// The longest wait between two attempts, in milliseconds.
pub const MAX_RECONNECT_DELAY_MS: u64 = 30000;

/// The number of attempts in a row that may fail: the failure of the last of
/// them gives up.
pub const MAX_RECONNECT_ATTEMPTS: u32 = 10;

/// The state of a connection to one address.
#[derive(Debug)]
pub struct Connection {
    address: String,
    connected: bool,
    reconnect_attempts: u32,
    reconnect_delay_ms: u64,
}

/// The model of a [`Connection`].
pub struct ConnectionView {
    pub address: Seq<char>,
    pub connected: bool,
    pub reconnect_attempts: u32,
    pub reconnect_delay_ms: u64,
}

/// Twice the wait, up to the longest wait.
pub open spec fn next_delay(delay: u64) -> u64 {
    if delay * 2 >= MAX_RECONNECT_DELAY_MS {
        MAX_RECONNECT_DELAY_MS
    } else {
        (delay * 2) as u64
    }
}

/// The wait after `failures` failed attempts in a row: one second, doubled
/// with each failure, up to thirty seconds.
pub open spec fn backoff(failures: nat) -> u64
    decreases failures,
{
    if failures == 0 {
        INITIAL_RECONNECT_DELAY_MS
    } else {
        next_delay(backoff((failures - 1) as nat))
    }
}

impl ConnectionView {
    /// A connection that is down and has not failed yet.
    pub open spec fn initial(address: Seq<char>) -> ConnectionView {
        ConnectionView {
            address,
            connected: false,
            reconnect_attempts: 0,
            reconnect_delay_ms: INITIAL_RECONNECT_DELAY_MS,
        }
    }

    /// What holds of every connection: the attempts are counted up to the
    /// budget, and the wait stays between the first and the longest.
    pub open spec fn wf(self) -> bool {
        &&& self.reconnect_attempts <= MAX_RECONNECT_ATTEMPTS
        &&& INITIAL_RECONNECT_DELAY_MS <= self.reconnect_delay_ms <= MAX_RECONNECT_DELAY_MS
    }

    /// After an attempt to connect succeeded: the count of failures and the
    /// wait start over.
    pub open spec fn connected(self) -> ConnectionView {
        ConnectionView {
            connected: true,
            reconnect_attempts: 0,
            reconnect_delay_ms: INITIAL_RECONNECT_DELAY_MS,
            ..self
        }
    }

    /// Whether a further failure gives up: it is the last attempt of the
    /// budget that fails.
    pub open spec fn exhausted(self) -> bool {
        self.reconnect_attempts + 1 >= MAX_RECONNECT_ATTEMPTS
    }

    /// After an attempt to connect failed.
    pub open spec fn failed(self) -> ConnectionView {
        if self.exhausted() {
            ConnectionView {
                connected: false,
                reconnect_attempts: MAX_RECONNECT_ATTEMPTS,
                ..self
            }
        } else {
            ConnectionView {
                connected: false,
                reconnect_attempts: (self.reconnect_attempts + 1) as u32,
                reconnect_delay_ms: next_delay(self.reconnect_delay_ms),
                ..self
            }
        }
    }

    /// After `n` attempts in a row failed.
    pub open spec fn after_failures(self, n: nat) -> ConnectionView
        decreases n,
    {
        if n == 0 {
            self
        } else {
            self.after_failures((n - 1) as nat).failed()
        }
    }

    /// After sending or receiving failed: the connection is down.
    pub open spec fn broken(self) -> ConnectionView {
        ConnectionView { connected: false, ..self }
    }

    /// The error of giving up.
    pub open spec fn give_up_error(self, reason: Seq<char>) -> ErrorView {
        ErrorView::Connection(
            "Failed to connect to "@ + self.address + " after 10 attempts: "@ + reason,
        )
    }
}

impl View for Connection {
    type V = ConnectionView;

    closed spec fn view(&self) -> ConnectionView {
        ConnectionView {
            address: self.address@,
            connected: self.connected,
            reconnect_attempts: self.reconnect_attempts,
            reconnect_delay_ms: self.reconnect_delay_ms,
        }
    }
}

impl Connection {
    #[verifier::type_invariant]
    spec fn within_bounds(self) -> bool {
        self@.wf()
    }

    /// A connection to an address, not yet up.
    pub fn new(address: String) -> (r: Connection)
        ensures
            r@ == ConnectionView::initial(address@),
    {
        Connection {
            address,
            connected: false,
            reconnect_attempts: 0,
            reconnect_delay_ms: INITIAL_RECONNECT_DELAY_MS,
        }
    }

    /// The address to connect to.
    pub fn address(&self) -> (r: &str)
        ensures
            r@ == self@.address,
    {
        self.address.as_str()
    }

    /// Whether the connection is up.
    pub fn is_connected(&self) -> (r: bool)
        ensures
            r == self@.connected,
            self@.wf(),
    {
        proof {
            use_type_invariant(self);
        }
        self.connected
    }

    /// Records that an attempt to connect succeeded.
    pub fn connect_succeeded(&mut self)
        ensures
            final(self)@ == old(self)@.connected(),
    {
        proof {
            use_type_invariant(&*self);
        }
        self.connected = true;
        self.reconnect_attempts = 0;
        self.reconnect_delay_ms = INITIAL_RECONNECT_DELAY_MS;
    }

    /// Records that an attempt to connect failed, for `reason`. Returns the
    /// milliseconds to sleep before the next attempt, or, where the budget
    /// of attempts is used up, the error of giving up.
    pub fn connect_failed(&mut self, reason: &str) -> (r: Result<u64, WindError>)
        ensures
            final(self)@ == old(self)@.failed(),
            match r {
                Ok(delay) => !old(self)@.exhausted() && delay == old(self)@.reconnect_delay_ms,
                Err(e) => old(self)@.exhausted() && e@ == old(self)@.give_up_error(reason@),
            },
    {
        proof {
            use_type_invariant(&*self);
        }
        self.connected = false;
        if self.reconnect_attempts + 1 >= MAX_RECONNECT_ATTEMPTS {
            self.reconnect_attempts = MAX_RECONNECT_ATTEMPTS;
            let head = join("Failed to connect to ", self.address.as_str());
            let mid = join(head.as_str(), " after 10 attempts: ");
            let text = join(mid.as_str(), reason);
            return Err(WindError::Connection(text));
        }
        self.reconnect_attempts = self.reconnect_attempts + 1;
        let delay = self.reconnect_delay_ms;
        self.reconnect_delay_ms = if delay * 2 >= MAX_RECONNECT_DELAY_MS {
            MAX_RECONNECT_DELAY_MS
        } else {
            delay * 2
        };
        Ok(delay)
    }

    /// Records that sending or receiving failed: the connection is down,
    /// and the next operation connects anew.
    pub fn mark_broken(&mut self)
        ensures
            final(self)@ == old(self)@.broken(),
    {
        proof {
            use_type_invariant(&*self);
        }
        self.connected = false;
    }

    /// Takes the connection down and forgets its failures.
    pub fn disconnect(&mut self)
        ensures
            final(self)@ == ConnectionView::initial(old(self)@.address),
    {
        proof {
            use_type_invariant(&*self);
        }
        self.connected = false;
        self.reconnect_attempts = 0;
        self.reconnect_delay_ms = INITIAL_RECONNECT_DELAY_MS;
    }
}

/// The waits of a connection that keeps failing are one second, then twice
/// the wait before, up to thirty seconds. Of ten attempts in a row the first
/// nine failures are each answered with a wait, and the tenth gives up.
pub proof fn law_backoff(address: Seq<char>, n: nat)
    ensures
        ConnectionView::initial(address).after_failures(n).wf(),
        n < MAX_RECONNECT_ATTEMPTS ==> {
            &&& ConnectionView::initial(address).after_failures(n).reconnect_attempts == n
            &&& ConnectionView::initial(address).after_failures(n).reconnect_delay_ms == backoff(n)
        },
        ConnectionView::initial(address).after_failures(n).exhausted() <==> n + 1
            >= MAX_RECONNECT_ATTEMPTS,
        !ConnectionView::initial(address).after_failures(n).connected,
    decreases n,
{
    if n > 0 {
        law_backoff(address, (n - 1) as nat);
    }
}

/// The first waits: 1, 2, 4, 8, 16 and then 30 seconds.
pub proof fn law_backoff_schedule()
    ensures
        backoff(0) == 1000,
        backoff(1) == 2000,
        backoff(2) == 4000,
        backoff(3) == 8000,
        backoff(4) == 16000,
        backoff(5) == 30000,
        forall|n: nat| n >= 5 ==> #[trigger] backoff(n) == 30000,
{
    assert(backoff(0) == 1000);
    assert(backoff(1) == 2000);
    assert(backoff(2) == 4000);
    assert(backoff(3) == 8000);
    assert(backoff(4) == 16000);
    assert(backoff(5) == 30000);
    assert forall|n: nat| n >= 5 implies #[trigger] backoff(n) == 30000 by {
        lemma_backoff_capped(n);
    }
}

/// From the fifth failure on the wait is thirty seconds.
pub proof fn lemma_backoff_capped(n: nat)
    requires
        n >= 5,
    ensures
        backoff(n) == 30000,
    decreases n,
{
    if n > 5 {
        lemma_backoff_capped((n - 1) as nat);
    } else {
        assert(backoff(0) == 1000);
        assert(backoff(1) == 2000);
        assert(backoff(2) == 4000);
        assert(backoff(3) == 8000);
        assert(backoff(4) == 16000);
    }
}

} // verus!
