//! What the server decides about the byte channel, apart from moving bytes:
//! which device it talks to, and when a failing channel is given up.

use vstd::prelude::*;

verus! {

/// The vendor identifier of the console.
pub const VENDOR_ID: u16 = 0x057E;

/// The product identifier of the console.
pub const PRODUCT_ID: u16 = 0x3000;

/// The interface that is claimed on the device.
pub const INTERFACE: u8 = 0x0;

/// The endpoint that requests are read from.
pub const READ_ENDPOINT: u8 = 0x81;

/// The endpoint that responses are written to.
pub const WRITE_ENDPOINT: u8 = 0x1;

/// How long one read or write may block, in seconds.
pub const TIMEOUT_SECONDS: u64 = 30;

/// Whether a device with these identifiers is the console.
pub fn is_nintendo_switch(vendor_id: u16, product_id: u16) -> (matches: bool)
    ensures
        matches == (vendor_id == VENDOR_ID && product_id == PRODUCT_ID),
{
    vendor_id == VENDOR_ID && product_id == PRODUCT_ID
}

/// How a read or a write on the channel ended.
#[derive(Clone, Copy, Debug, PartialEq, Eq, Structural)]
pub enum Transfer {
    /// Bytes were moved.
    Done,
    /// The time ran out with nothing moved: there is no command yet.
    TimedOut,
    /// The channel failed.
    Failed,
}

/// What the serving loop does next.
#[derive(Clone, Copy, Debug, PartialEq, Eq, Structural)]
pub enum Next {
    /// Go on with the same connection.
    Continue,
    /// Give the connection up and open a new one.
    Reconnect,
}

/// The number of failures in a row that a connection is allowed.
#[derive(Clone, Copy, Debug, PartialEq, Eq, Structural)]
pub struct RetryBudget {
    /// How many failures in a row are borne.
    pub limit: u32,
    /// How many failures there have been since the last transfer that moved
    /// bytes, or since the connection was opened.
    pub failures: u32,
}

/// The budget after a transfer, and what to do next. A transfer that moved
/// bytes clears the count, a timeout is no failure and changes nothing, and a
/// failure counts: with more failures in a row than the limit, the
/// connection is given up and the count starts anew.
pub open spec fn after_transfer(budget: RetryBudget, transfer: Transfer) -> (RetryBudget, Next) {
    match transfer {
        Transfer::Done => (RetryBudget { failures: 0, ..budget }, Next::Continue),
        Transfer::TimedOut => (budget, Next::Continue),
        Transfer::Failed => if budget.failures >= budget.limit {
            (RetryBudget { failures: 0, ..budget }, Next::Reconnect)
        } else {
            (RetryBudget { failures: (budget.failures + 1) as u32, ..budget }, Next::Continue)
        },
    }
}

impl RetryBudget {
    /// A budget of `limit` failures in a row, with none so far.
    pub fn new(limit: u32) -> (budget: RetryBudget)
        ensures
            budget == (RetryBudget { limit, failures: 0 }),
    {
        RetryBudget { limit, failures: 0 }
    }

    /// Takes note of how a transfer ended, and says what to do next.
    pub fn record(&mut self, transfer: Transfer) -> (next: Next)
        ensures
            (*final(self), next) == after_transfer(*old(self), transfer),
    {
        match transfer {
            Transfer::Done => {
                self.failures = 0;
                Next::Continue
            },
            Transfer::TimedOut => Next::Continue,
            Transfer::Failed => {
                if self.failures >= self.limit {
                    self.failures = 0;
                    Next::Reconnect
                } else {
                    self.failures = self.failures + 1;
                    Next::Continue
                }
            },
        }
    }
}

} // verus!
