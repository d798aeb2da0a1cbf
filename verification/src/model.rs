//! What the state of a pool is, and how each operation changes it.

use vstd::prelude::*;

use crate::binding::{PoolBinding, PoolId};
use crate::client::ClientHandle;
use crate::inner::{less_one, open_limit, woken_tasks, wrapping_more, InnerView};
use crate::options::OptionsSource;

verus! {

/// How many of the opens that wait are polled in one sweep.
pub const PENDING_OPEN_POLL_BUDGET: usize = 4;

/// What came of polling an open.
#[derive(Debug)]
pub enum OpenPoll<E> {
    /// It needs more time.
    Pending,
    /// It ended, with a client or with an error.
    Ready(Result<ClientHandle, E>),
}

impl<E> OpenPoll<E> {
    /// The error that the open ended with.
    pub open spec fn error(self) -> Option<E> {
        match self {
            OpenPoll::Ready(Err(error)) => Some(error),
            _ => None,
        }
    }
}

/// The errors among `polls`, in their order.
pub open spec fn errors<E>(polls: Seq<OpenPoll<E>>) -> Seq<E>
    decreases polls.len(),
{
    if polls.len() == 0 {
        Seq::empty()
    } else {
        match polls.last().error() {
            Some(error) => errors(polls.drop_last()).push(error),
            None => errors(polls.drop_last()),
        }
    }
}

/// The first error among `polls`.
pub open spec fn first_error<E>(polls: Seq<OpenPoll<E>>) -> Option<E> {
    if errors(polls).len() == 0 {
        None
    } else {
        Some(errors(polls)[0])
    }
}

/// The errors among `polls` but for the first.
pub open spec fn later_errors<E>(polls: Seq<OpenPoll<E>>) -> Seq<E> {
    if errors(polls).len() == 0 {
        Seq::empty()
    } else {
        errors(polls).skip(1)
    }
}

/// What a pool is.
#[verifier::ext_equal]
pub struct PoolView {
    /// The name of the pool.
    pub id: PoolId,
    /// Where its options come from.
    pub options: OptionsSource,
    /// How many idle connections it keeps.
    pub min: nat,
    /// How many connections it has at most.
    pub max: nat,
    /// Its state.
    pub inner: InnerView,
}

impl PoolView {
    /// The pool in the state `inner`.
    pub open spec fn with(self, inner: InnerView) -> PoolView {
        PoolView { inner, ..self }
    }

    /// How many connections may be opening at once.
    pub open spec fn limit(self) -> nat {
        open_limit(self.max)
    }

    /// The queues have the room that the pool was made with.
    pub open spec fn wf(self) -> bool {
        &&& 0 < self.max <= usize::MAX
        &&& self.inner.new_room == self.limit()
        &&& self.inner.new.len() <= self.inner.new_room
        &&& self.inner.idle_room == self.max
        &&& self.inner.idle.len() <= self.inner.idle_room
    }

    /// Whether one more connection may be opened.
    pub open spec fn can_open(self) -> bool {
        self.inner.conn_slots < self.max && self.inner.pending_opens < self.limit()
    }

    /// Whether a task that waits could have gone on instead.
    pub open spec fn available(self) -> bool {
        self.inner.idle.len() > 0 || self.can_open()
    }

    /// The client as it is handed to a user.
    pub open spec fn leased(self, client: ClientHandle) -> ClientHandle {
        ClientHandle {
            pool: PoolBinding::Attached(self.id),
            used: true,
            ..client.with_inside(false)
        }
    }

    /// The pool after its oldest idle client was handed to a user.
    pub open spec fn taken(self) -> PoolView {
        self.with(
            InnerView {
                idle: self.inner.idle.skip(1),
                ongoing: wrapping_more(self.inner.ongoing),
                ..self.inner
            },
        )
    }

    /// The pool after an open was started, under `ticket`.
    pub open spec fn opened(self, ticket: u64) -> PoolView {
        self.with(
            InnerView {
                new: self.inner.new.push(ticket),
                conn_slots: self.inner.conn_slots + 1,
                pending_opens: self.inner.pending_opens + 1,
                ..self.inner
            },
        )
    }

    /// The pool after an address was handed out.
    pub open spec fn addressed(self) -> PoolView {
        self.with(
            InnerView {
                connections_num: wrapping_more(self.inner.connections_num),
                ..self.inner
            },
        )
    }

    /// The pool after `task` was put behind the tasks that wait.
    pub open spec fn registered(self, task: u64) -> PoolView {
        self.with(InnerView { tasks: self.inner.tasks.push(task), ..self.inner })
    }

    /// The pool after all tasks that wait were woken.
    pub open spec fn awake(self) -> PoolView {
        self.with(InnerView { tasks: Seq::empty(), ..self.inner })
    }

    /// The pool after the task that has waited longest was taken out to be woken.
    pub open spec fn waking(self) -> PoolView {
        self.with(InnerView { tasks: self.inner.tasks.skip(1), ..self.inner })
    }

    /// Whether a client that is given back is to become idle, rather than closed.
    pub open spec fn wants(self, client: ClientHandle) -> bool {
        &&& self.inner.idle.len() < self.min
        &&& client.pool is Attached
        &&& client.inner is Some
    }

    /// Whether a client that is given back becomes idle: there is room for it too.
    pub open spec fn keeps(self, client: ClientHandle) -> bool {
        self.wants(client) && self.inner.idle.len() < self.inner.idle_room
    }

    /// Whether the tasks that wait are to be woken after a user gave a client back, or
    /// lost one.
    pub open spec fn wakes_on_return(self) -> bool {
        self.inner.ongoing > 0
    }

    /// The pool after a user gave `client` back.
    pub open spec fn returned(self, client: ClientHandle) -> PoolView {
        if self.inner.ongoing == 0 {
            self
        } else if self.keeps(client) {
            self.with(
                InnerView {
                    idle: self.inner.idle.push(parked(client)),
                    ongoing: less_one(self.inner.ongoing),
                    ..self.inner
                },
            )
        } else {
            self.released()
        }
    }

    /// The pool after a user's connection was counted out.
    pub open spec fn released(self) -> PoolView {
        if self.inner.ongoing == 0 {
            self
        } else {
            self.with(
                InnerView {
                    ongoing: less_one(self.inner.ongoing),
                    conn_slots: less_one(self.inner.conn_slots),
                    ..self.inner
                },
            )
        }
    }

    /// The pool while the open that has waited longest is polled.
    pub open spec fn polling(self) -> PoolView {
        self.with(InnerView { new: self.inner.new.skip(1), ..self.inner })
    }

    /// The pool after an open and its connection were counted out.
    pub open spec fn given_up(self) -> PoolView {
        self.with(
            InnerView {
                pending_opens: less_one(self.inner.pending_opens),
                conn_slots: less_one(self.inner.conn_slots),
                ..self.inner
            },
        )
    }

    /// The pool after the open `ticket`, which was being polled, gave `polled`.
    pub open spec fn settled<E>(self, ticket: u64, polled: OpenPoll<E>) -> PoolView {
        match polled {
            OpenPoll::Ready(Ok(client)) => if self.inner.idle.len() < self.inner.idle_room {
                self.with(
                    InnerView {
                        pending_opens: less_one(self.inner.pending_opens),
                        idle: self.inner.idle.push(client),
                        ..self.inner
                    },
                )
            } else {
                self.given_up()
            },
            OpenPoll::Ready(Err(_)) => self.given_up(),
            OpenPoll::Pending => if self.inner.new.len() < self.inner.new_room {
                self.with(InnerView { new: self.inner.new.push(ticket), ..self.inner })
            } else {
                self.given_up()
            },
        }
    }

    /// Whether the tasks that wait are to be woken after an open gave `polled`.
    pub open spec fn wakes<E>(self, polled: OpenPoll<E>) -> bool {
        polled is Ready || self.inner.new.len() >= self.inner.new_room
    }

    /// How many opens a sweep polls.
    pub open spec fn sweep_len(self) -> nat {
        if self.inner.new.len() < PENDING_OPEN_POLL_BUDGET {
            self.inner.new.len()
        } else {
            PENDING_OPEN_POLL_BUDGET as nat
        }
    }

    /// The pool after the opens that have waited longest were polled, one after the
    /// other, and gave `polls`.
    pub open spec fn polled<E>(self, polls: Seq<OpenPoll<E>>) -> PoolView
        decreases polls.len(),
    {
        if polls.len() == 0 {
            self
        } else {
            let before = self.polled(polls.drop_last());
            before.polling().settled(before.inner.new[0], polls.last())
        }
    }

    /// The clients that found no room among the idle ones meanwhile, in their order.
    pub open spec fn refused_clients<E>(self, polls: Seq<OpenPoll<E>>) -> Seq<ClientHandle>
        decreases polls.len(),
    {
        if polls.len() == 0 {
            Seq::empty()
        } else {
            let before = self.polled(polls.drop_last());
            match polls.last() {
                OpenPoll::Ready(Ok(client)) if before.inner.idle.len()
                    >= before.inner.idle_room => self.refused_clients(polls.drop_last()).push(
                    client,
                ),
                _ => self.refused_clients(polls.drop_last()),
            }
        }
    }

    /// The opens that found no room to wait again meanwhile, in their order.
    pub open spec fn refused_opens<E>(self, polls: Seq<OpenPoll<E>>) -> Seq<u64>
        decreases polls.len(),
    {
        if polls.len() == 0 {
            Seq::empty()
        } else {
            let before = self.polled(polls.drop_last());
            if polls.last() is Pending && before.polling().inner.new.len()
                >= before.inner.new_room {
                self.refused_opens(polls.drop_last()).push(before.inner.new[0])
            } else {
                self.refused_opens(polls.drop_last())
            }
        }
    }

    /// Whether the tasks that wait are to be woken after that.
    pub open spec fn polled_wakes<E>(self, polls: Seq<OpenPoll<E>>) -> bool
        decreases polls.len(),
    {
        polls.len() > 0 && {
            ||| self.polled_wakes(polls.drop_last())
            ||| self.polled(polls.drop_last()).polling().wakes(polls.last())
        }
    }

    /// The tasks that are woken at the end of such a sweep, where the n-th waker puts the
    /// n-th of `parks` behind the tasks that wait.
    pub open spec fn swept_tasks<E>(
        self,
        polls: Seq<OpenPoll<E>>,
        parks: Seq<Seq<u64>>,
    ) -> Seq<u64> {
        if self.polled_wakes(polls) {
            woken_tasks(self.inner.tasks, parks)
        } else {
            Seq::empty()
        }
    }

    /// The pool after a sweep whose opens gave `polls`.
    pub open spec fn swept<E>(self, polls: Seq<OpenPoll<E>>) -> PoolView {
        if self.polled_wakes(polls) {
            self.polled(polls).awake()
        } else {
            self.polled(polls)
        }
    }
}

/// Polling opens changes only which opens wait, which clients are idle, and how many
/// opens and connections are counted.
pub proof fn lemma_polled_frame<E>(pool: PoolView, polls: Seq<OpenPoll<E>>)
    ensures
        pool.polled(polls) == pool.with(
            InnerView {
                new: pool.polled(polls).inner.new,
                idle: pool.polled(polls).inner.idle,
                conn_slots: pool.polled(polls).inner.conn_slots,
                pending_opens: pool.polled(polls).inner.pending_opens,
                ..pool.inner
            },
        ),
    decreases polls.len(),
{
    if polls.len() > 0 {
        lemma_polled_frame(pool, polls.drop_last());
    }
}

/// The client as it lies in the pool after a user gave it back.
pub open spec fn parked(client: ClientHandle) -> ClientHandle {
    ClientHandle { pool: PoolBinding::Unbound, ..client.with_inside(true) }
}

} // verus!
