//! The block operation and the bulk-blocking batch.
//!
//! Blocking is idempotent and reports whether the account's state changed:
//! the protocol first probes whether the account is already blocked, and only
//! issues the mutating call when it is not. A batch walks its accounts one by
//! one; a transport failure on one account never stops the accounts after it.

use vstd::prelude::*;

use crate::error::TransportError;

verus! {

/// What the block protocol does after probing an account's current state.
#[derive(Clone, Copy, Debug, PartialEq, Eq, Structural)]
pub enum BlockProbe {
    /// The account is blocked already: the operation reports no change and
    /// makes no mutating call.
    AlreadyBlocked,
    /// The account is not blocked yet: the mutating call follows.
    NeedsBlock,
}

/// Reads the forge's answer to the "is this account blocked" probe: 204
/// means blocked, 404 means not blocked; anything else is a transport
/// failure.
pub fn interpret_block_probe(status: u16) -> (r: Result<BlockProbe, TransportError>)
    ensures
        status == 204 ==> r == Ok::<BlockProbe, TransportError>(BlockProbe::AlreadyBlocked),
        status == 404 ==> r == Ok::<BlockProbe, TransportError>(BlockProbe::NeedsBlock),
        status != 204 && status != 404 ==> r == Err::<BlockProbe, TransportError>(
            TransportError::Status(status),
        ),
{
    if status == 204 {
        Ok(BlockProbe::AlreadyBlocked)
    } else if status == 404 {
        Ok(BlockProbe::NeedsBlock)
    } else {
        Err(TransportError::Status(status))
    }
}

/// Reads the forge's answer to the mutating block call: 204 means the
/// account is blocked now; anything else is a transport failure.
pub fn interpret_block_put(status: u16) -> (r: Result<(), TransportError>)
    ensures
        status == 204 ==> r == Ok::<(), TransportError>(()),
        status != 204 ==> r == Err::<(), TransportError>(TransportError::Status(status)),
{
    if status == 204 {
        Ok(())
    } else {
        Err(TransportError::Status(status))
    }
}

/// A bulk-blocking batch over a list of logins.
///
/// The driver asks `pending` for the next login, attempts the block
/// operation outside, and `record`s the outcome. Recording advances to the
/// next account whatever the outcome was, so a failure on one account leaves
/// every later account still to be attempted; the counters split the
/// attempts into state changes, already-blocked accounts and failures, and
/// the worst outcome observed decides the caller's exit status.
pub struct BlockBatch {
    logins: Vec<String>,
    next: usize,
    changed: usize,
    already: usize,
    failed: usize,
}

impl BlockBatch {
    /// The logins the batch was created over.
    pub closed spec fn logins(self) -> Seq<String> {
        self.logins@
    }

    /// How many accounts have been attempted so far.
    pub closed spec fn attempted(self) -> nat {
        self.next as nat
    }

    /// How many attempts newly blocked their account.
    pub closed spec fn changed(self) -> nat {
        self.changed as nat
    }

    /// How many attempts found their account already blocked.
    pub closed spec fn already(self) -> nat {
        self.already as nat
    }

    /// How many attempts failed at the transport.
    pub closed spec fn failed(self) -> nat {
        self.failed as nat
    }

    /// Every attempt is counted exactly once.
    pub closed spec fn wf(self) -> bool {
        &&& self.next <= self.logins@.len()
        &&& self.changed + self.already + self.failed == self.next
    }

    /// A fresh batch over these logins, nothing attempted yet.
    pub fn new(logins: Vec<String>) -> (b: Self)
        ensures
            b.wf(),
            b.logins() == logins@,
            b.attempted() == 0,
            b.changed() == 0,
            b.already() == 0,
            b.failed() == 0,
    {
        BlockBatch { logins, next: 0, changed: 0, already: 0, failed: 0 }
    }

    /// The next login to attempt, if any is left.
    pub fn pending(&self) -> (r: Option<&String>)
        requires
            self.wf(),
        ensures
            match r {
                Some(l) => self.attempted() < self.logins().len() && *l == self.logins()[
                    self.attempted() as int
                ],
                None => self.attempted() == self.logins().len(),
            },
    {
        if self.next < self.logins.len() {
            Some(&self.logins[self.next])
        } else {
            None
        }
    }

    /// Records the outcome of the pending account's attempt and moves to the
    /// next one — on failure as on success, so one failed account never
    /// stops the accounts after it.
    pub fn record(&mut self, outcome: &Result<bool, TransportError>)
        requires
            old(self).wf(),
            old(self).attempted() < old(self).logins().len(),
        ensures
            final(self).wf(),
            final(self).logins() == old(self).logins(),
            final(self).attempted() == old(self).attempted() + 1,
            final(self).changed() == old(self).changed() + (if *outcome == Ok::<
                bool,
                TransportError,
            >(true) {
                1nat
            } else {
                0nat
            }),
            final(self).already() == old(self).already() + (if *outcome == Ok::<
                bool,
                TransportError,
            >(false) {
                1nat
            } else {
                0nat
            }),
            final(self).failed() == old(self).failed() + (if *outcome is Err {
                1nat
            } else {
                0nat
            }),
    {
        let n = self.logins.len();
        assert(self.changed <= self.next && self.already <= self.next && self.failed <= self.next);
        assert(self.next < n);
        match outcome {
            Ok(true) => {
                self.changed = self.changed + 1;
            },
            Ok(false) => {
                self.already = self.already + 1;
            },
            Err(_) => {
                self.failed = self.failed + 1;
            },
        }
        self.next = self.next + 1;
    }

    /// Whether any attempt so far failed at the transport: the batch's worst
    /// outcome, which the caller turns into its exit status.
    pub fn any_failure(&self) -> (r: bool)
        ensures
            r == (self.failed() > 0),
    {
        self.failed > 0
    }
}

} // verus!
