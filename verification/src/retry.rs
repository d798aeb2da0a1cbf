//! How often, and when, the opening of a connection is tried again.

use vstd::prelude::*;

use crate::binding::PoolId;
use crate::options::Delay;

verus! {

/// The kinds of I/O errors that are told apart when a connection is opened.
#[derive(Clone, Copy, Debug, PartialEq, Eq, Structural)]
pub enum IoErrorKind {
    /// The pipe was broken.
    BrokenPipe,
    /// The server refused the connection.
    ConnectionRefused,
    /// Anything else.
    Other,
}

impl IoErrorKind {
    /// Whether the error counts as an attempt, after which to wait and try again.
    pub open spec fn retriable(self) -> bool {
        self is BrokenPipe || self is ConnectionRefused
    }
}

/// How an attempt to open a connection ended.
#[derive(Clone, Copy, Debug, PartialEq, Eq, Structural)]
pub enum Attempt {
    /// There is a connection.
    Connected,
    /// An I/O error.
    Io(IoErrorKind),
    /// Any other error.
    Failed,
}

/// What to do after an attempt.
#[must_use]
#[derive(Clone, Copy, Debug, PartialEq, Eq, Structural)]
pub enum Retry {
    /// Return what the attempt gave.
    Return,
    /// Wait for the given time, then try again.
    Sleep(Delay),
    /// Try again at once.
    Again,
}

/// The opening of a connection.
#[derive(Clone, Copy, Debug, PartialEq, Eq, Structural)]
pub struct RetryOpen {
    /// The pool that the connection is opened for.
    pub pool: Option<PoolId>,
    /// Number of times that it was tried again after a wait.
    pub attempt: usize,
    /// How many such times there are at most.
    pub max_attempts: usize,
    /// How long to wait before each of them.
    pub retry_timeout: Delay,
}

impl RetryOpen {
    /// What to do after an attempt that ended in `ended`.
    pub open spec fn next(self, ended: Attempt) -> Retry {
        match ended {
            Attempt::Connected => Retry::Return,
            Attempt::Failed => Retry::Return,
            Attempt::Io(kind) => if !kind.retriable() {
                Retry::Again
            } else if self.attempt < self.max_attempts {
                Retry::Sleep(self.retry_timeout)
            } else {
                Retry::Return
            },
        }
    }

    /// The opening after an attempt that ended in `ended`.
    pub open spec fn after(self, ended: Attempt) -> RetryOpen {
        if self.next(ended) is Sleep {
            RetryOpen { attempt: (self.attempt + 1) as usize, ..self }
        } else {
            self
        }
    }

    /// Decides what to do after an attempt, and counts it where it is to be tried
    /// again after a wait.
    pub fn retry_open(&mut self, ended: Attempt) -> (retry: Retry)
        ensures
            retry == old(self).next(ended),
            *final(self) == old(self).after(ended),
    {
        match ended {
            Attempt::Io(kind) => match kind {
                IoErrorKind::BrokenPipe | IoErrorKind::ConnectionRefused => {
                    if self.attempt >= self.max_attempts {
                        return Retry::Return;
                    }
                    self.attempt = self.attempt + 1;
                    Retry::Sleep(self.retry_timeout)
                },
                IoErrorKind::Other => Retry::Again,
            },
            Attempt::Failed => Retry::Return,
            Attempt::Connected => Retry::Return,
        }
    }
}

} // verus!
