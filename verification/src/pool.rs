//! The pool.
//!
//! A pool is a value with one owner. Tasks that share it take its steps one at a time,
//! and do between them what the pool cannot: they poll the opens that it names, wake
//! the tasks and close the connections.

use vstd::prelude::*;

use crate::binding::{PoolBinding, PoolId};
use crate::client::{ClientHandle, HandleDrop, Transport};
use crate::host::{Host, TEXT_PROTOCOL_PORT};
use crate::inner::{parks_view, pending_open_limit, Inner, InnerView};
use crate::model::{
    errors, first_error, later_errors, lemma_polled_frame, parked, OpenPoll, PoolView,
    PENDING_OPEN_POLL_BUDGET,
};
use crate::options::{Delay, IntoOptions, OptionsSource};
use crate::retry::RetryOpen;
use crate::text::{fields_view, structure, structure_text};

verus! {

/// A pool of ClickHouse connections.
///
/// A connection that is being opened, and a task that waits for one, are known to the
/// pool by a number each.
pub struct Pool {
    id: PoolId,
    options: OptionsSource,
    inner: Inner,
    min: usize,
    max: usize,
}

/// A summary of a pool's state.
#[derive(Debug)]
pub struct PoolInfo {
    /// Number of queued connection-open futures, excluding opens currently being polled.
    pub new_len: usize,
    /// Number of idle connections.
    pub idle_len: usize,
    /// Number of tasks that wait for a connection.
    pub tasks_len: usize,
    /// Number of connections in the hands of users.
    pub ongoing: usize,
}

/// A request for a connection of a pool.
#[derive(Clone, Copy, Debug, PartialEq, Eq, Structural)]
pub struct GetHandle {
    /// The pool that is asked.
    pub pool: PoolId,
}

/// A sweep over the opens that wait: each is taken out, polled and settled.
#[must_use]
#[derive(Debug)]
pub struct Sweep<E> {
    /// How many opens are left to poll.
    pub left: usize,
    /// The first error that an open ended with.
    pub first_err: Option<E>,
    /// Whether the tasks that wait are to be woken at the end.
    pub wake_waiters: bool,
}

impl<E> Sweep<E> {
    /// Ends the sweep: returns its first error, and whether the tasks that wait are to be
    /// woken.
    #[must_use]
    pub fn finish(self) -> (swept: (Result<(), E>, bool))
        ensures
            swept_error(swept.0) == self.first_err,
            swept.1 == self.wake_waiters,
    {
        match self.first_err {
            Some(error) => (Err(error), self.wake_waiters),
            None => (Ok(()), self.wake_waiters),
        }
    }
}

/// What became of an open that was polled.
#[must_use]
#[derive(Debug)]
pub enum Settled<E> {
    /// Its client is idle now.
    Idle,
    /// There is no room for its client, which is to be closed.
    Close(ClientHandle),
    /// It waits to be polled again.
    Requeued,
    /// There is no room for it any more, and it is to be dropped.
    Dropped(u64),
    /// It ended with the first error of the sweep.
    FirstError,
    /// It ended with a further error.
    LaterError(E),
}

/// What a whole sweep gave.
#[must_use]
#[derive(Debug)]
pub struct Swept<E> {
    /// The first error.
    pub result: Result<(), E>,
    /// The further errors.
    pub later_errors: Vec<E>,
    /// The tasks that were woken, in this order.
    pub woken: Vec<u64>,
    /// The clients to close, for which there was no room.
    pub closed: Vec<ClientHandle>,
    /// The opens to drop, for which there was no room.
    pub dropped: Vec<u64>,
}

/// What a task that asks for a connection is to do next.
#[must_use]
#[derive(Debug)]
pub enum Step<E> {
    /// Use this client. An error of the sweep before, if there was one, is passed over.
    Use(ClientHandle, Option<E>),
    /// Return the error of the sweep before.
    Fail(E),
    /// Open this connection, under the ticket that was given, and ask again at once.
    Open(RetryOpen),
    /// Register as waiting.
    Wait,
}

/// What a task gets that asks for a connection.
#[must_use]
#[derive(Debug)]
pub struct Polled<E> {
    /// The client or the error, where there is one already.
    pub result: Option<Result<ClientHandle, E>>,
    /// The connection to be opened under the ticket that was given.
    pub opened: Option<RetryOpen>,
    /// The tasks that were woken, in this order.
    pub woken: Vec<u64>,
    /// Whether the task itself is to be woken at once.
    pub wake_self: bool,
    /// The errors of the sweep before that the task does not get.
    pub passed_over: Vec<E>,
    /// The clients to close, for which there was no room.
    pub closed: Vec<ClientHandle>,
    /// The opens to drop, for which there was no room.
    pub dropped: Vec<u64>,
}

/// What became of a client that was given back.
#[must_use]
#[derive(Debug)]
pub enum Returned {
    /// No client is in the hands of a user, so this one is not counted; close it.
    NotOngoing(ClientHandle),
    /// The client is idle now; wake the tasks that wait.
    Kept,
    /// The client was to become idle, but there is no room for it; close it, then wake
    /// the tasks that wait.
    Refused(ClientHandle),
    /// Wake the tasks that wait, then close the client.
    Close(ClientHandle),
}

impl Returned {
    /// Whether the tasks that wait are to be woken.
    pub fn wakes(&self) -> (wakes: bool)
        ensures
            wakes == (self !is NotOngoing),
    {
        !matches!(self, Returned::NotOngoing(_))
    }
}

/// What became of a client that went out of scope.
#[must_use]
#[derive(Debug)]
pub enum Dropped {
    /// Nothing: it had no transport.
    Nothing,
    /// Close its transport, which belonged to no pool.
    Close(Transport),
    /// Close its transport, which was never taken from the pool.
    CloseUnused(Transport),
    /// It was given back to the pool.
    Returned(Returned),
}

/// How many idle connections a pool keeps, where its options do not say.
pub const DEFAULT_MIN: usize = 5;

/// How many connections a pool has at most, where its options do not say.
pub const DEFAULT_MAX: usize = 10;

/// How many idle connections a pool with these options keeps.
pub open spec fn source_min(source: OptionsSource) -> nat {
    match source {
        OptionsSource::Loaded(options) => options.pool_min as nat,
        OptionsSource::Invalid => DEFAULT_MIN as nat,
    }
}

/// How many connections a pool with these options has at most.
pub open spec fn source_max(source: OptionsSource) -> nat {
    match source {
        OptionsSource::Loaded(options) => options.pool_max as nat,
        OptionsSource::Invalid => DEFAULT_MAX as nat,
    }
}

/// The servers of a pool with these options.
pub open spec fn source_hosts(source: OptionsSource) -> Seq<Host> {
    match source {
        OptionsSource::Loaded(options) => seq![options.addr] + options.alt_hosts@,
        OptionsSource::Invalid => Seq::empty(),
    }
}

/// How often a refused connection is tried again with these options, and after which
/// wait.
pub open spec fn source_retry(source: OptionsSource) -> (usize, Delay) {
    match source {
        OptionsSource::Loaded(options) => (options.send_retries, options.retry_timeout),
        OptionsSource::Invalid => (0, Delay { secs: 0, nanos: 0 }),
    }
}

/// The pool named `id` with these options, before its first connection.
pub open spec fn fresh_pool(id: PoolId, source: OptionsSource) -> PoolView {
    PoolView {
        id,
        options: source,
        min: source_min(source),
        max: source_max(source),
        inner: InnerView {
            new: Seq::empty(),
            new_room: crate::inner::open_limit(source_max(source)),
            idle: Seq::empty(),
            idle_room: source_max(source),
            tasks: Seq::empty(),
            ongoing: 0,
            conn_slots: 0,
            pending_opens: 0,
            hosts: source_hosts(source),
            connections_num: 0,
        },
    }
}

impl View for Pool {
    type V = PoolView;

    closed spec fn view(&self) -> PoolView {
        PoolView {
            id: self.id,
            options: self.options,
            min: self.min as nat,
            max: self.max as nat,
            inner: self.inner@,
        }
    }
}

impl Pool {
    /// Constructs a new pool, under the name `id`.
    pub fn new<O: IntoOptions>(id: PoolId, options: O) -> (pool: Self)
        requires
            0 < source_max(options.options_src()),
            crate::queue::addressable(source_max(options.options_src()) as int),
        ensures
            pool@ == fresh_pool(id, options.options_src()),
            pool@.wf(),
    {
        let options_src = options.into_options_src();

        let mut min: usize = DEFAULT_MIN;
        let mut max: usize = DEFAULT_MAX;
        let mut hosts: Vec<Host> = Vec::new();

        if let Ok(opt) = options_src.get() {
            min = opt.pool_min;
            max = opt.pool_max;
            hosts.push(opt.addr.clone());
            let mut i: usize = 0;
            while i < opt.alt_hosts.len()
                invariant
                    i <= opt.alt_hosts@.len(),
                    hosts@ == seq![opt.addr] + opt.alt_hosts@.take(i as int),
                decreases opt.alt_hosts@.len() - i,
            {
                hosts.push(opt.alt_hosts[i].clone());
                i = i + 1;
            }
        }
        assert(hosts@ == source_hosts(options_src));

        Pool { id, options: options_src, inner: Inner::new(max, hosts), min, max }
    }

    /// Whether the attempt is made to connect through the text protocol: one of the
    /// servers is on its port.
    pub fn names_text_port(&self) -> (named: bool)
        ensures
            named == exists|i: int|
                0 <= i < self@.inner.hosts.len() && (#[trigger] self@.inner.hosts[i]).spec_port()
                    == Some(TEXT_PROTOCOL_PORT),
    {
        self.inner.names_text_port()
    }

    /// A summary of the pool's state.
    pub fn info(&self) -> (info: PoolInfo)
        ensures
            info.new_len == self@.inner.new.len(),
            info.idle_len == self@.inner.idle.len(),
            info.tasks_len == self@.inner.tasks.len(),
            info.ongoing == self@.inner.ongoing,
    {
        PoolInfo {
            new_len: self.inner.new_len(),
            idle_len: self.inner.idle_len(),
            tasks_len: self.inner.tasks_len(),
            ongoing: self.inner.ongoing_count(),
        }
    }

    /// Returns a request for a connection of this pool.
    pub fn get_handle(&self) -> (request: GetHandle)
        ensures
            request.pool == self@.id,
    {
        GetHandle { pool: self.id }
    }

    /// Number of queued or in-flight connection-open futures.
    pub fn pending_open_count(&self) -> (count: usize)
        ensures
            count == self@.inner.pending_opens,
    {
        self.inner.pending_open_count()
    }

    /// Maximum queued or in-flight connection opens allowed by this pool.
    pub fn pending_open_limit(&self) -> (limit: usize)
        ensures
            limit == self@.limit(),
    {
        pending_open_limit(self.max)
    }

    /// The numbers that describe the pool to a reader, each with its name.
    pub fn debug_fields(&self) -> (fields: Vec<(&'static str, usize)>)
        ensures
            fields_view(fields@) == described(self@),
    {
        let info = self.info();
        let mut fields: Vec<(&'static str, usize)> = Vec::new();
        fields.push(("min", self.min));
        fields.push(("max", self.max));
        fields.push(("new connections count", info.new_len));
        fields.push(("pending open connections count", self.pending_open_count()));
        fields.push(("pending open connections limit", self.pending_open_limit()));
        fields.push(("idle connections count", info.idle_len));
        fields.push(("tasks count", info.tasks_len));
        fields.push(("ongoing connections count", info.ongoing));
        fields
    }

    /// The description of the pool, on one line.
    pub fn debug_text(&self) -> (text: String)
        ensures
            text@ == structure("Pool"@, described(self@)),
    {
        structure_text("Pool", &self.debug_fields())
    }

    /// The state of the pool.
    pub fn inner(&self) -> (inner: &Inner)
        ensures
            inner@ == self@.inner,
    {
        &self.inner
    }

    /// The state of the pool, to be changed.
    pub fn inner_mut(&mut self) -> (inner: &mut Inner)
        ensures
            inner@ == old(self)@.inner,
            final(self)@ == old(self)@.with(final(inner)@),
    {
        &mut self.inner
    }

    /// Hands out the client that has been idle longest.
    pub fn take_conn(&mut self) -> (taken: Option<ClientHandle>)
        ensures
            match taken {
                Some(client) => {
                    &&& old(self)@.inner.idle.len() > 0
                    &&& client == old(self)@.leased(old(self)@.inner.idle[0])
                    &&& final(self)@ == old(self)@.taken()
                },
                None => old(self)@.inner.idle.len() == 0 && final(self)@ == old(self)@,
            },
    {
        match self.inner.pop_idle() {
            Some(mut client) => {
                client.pool = PoolBinding::Attached(self.id);
                client.set_inside(false);
                client.set_used();
                self.inner.add_ongoing();
                Some(client)
            },
            None => None,
        }
    }

    /// Takes a client back from a user. It becomes idle where the pool has fewer idle
    /// connections than it keeps and the client is attached and connected; else its slot
    /// is free again. The tasks that wait are to be woken either way.
    #[must_use]
    pub fn return_conn(&mut self, client: ClientHandle) -> (returned: Returned)
        ensures
            final(self)@ == old(self)@.returned(client),
            is_return(old(self)@, client, returned),
    {
        let mut client = client;
        let is_attached = client.pool.is_attached();
        client.pool = PoolBinding::Unbound;
        client.set_inside(true);

        if self.inner.ongoing_count() == 0 {
            return Returned::NotOngoing(client);
        }
        let returned = if self.inner.idle_len() < self.min && is_attached
            && client.inner.is_some() {
            match self.inner.push_idle(client) {
                Ok(()) => Returned::Kept,
                Err(client) => Returned::Refused(client),
            }
        } else {
            Returned::Close(client)
        };

        self.inner.sub_ongoing();
        if !matches!(returned, Returned::Kept) {
            self.inner.release_conn_slot();
        }
        returned
    }

    /// Takes care of a client that goes out of scope, and that is bound to this pool or
    /// to none.
    #[must_use]
    pub fn drop_handle(&mut self, handle: ClientHandle) -> (dropped: Dropped)
        requires
            handle.pool.pool() is Some ==> handle.pool.pool() == Some(old(self)@.id),
        ensures
            match dropped {
                Dropped::Nothing => {
                    &&& handle.drop_action() is Nothing
                    &&& final(self)@ == old(self)@
                },
                Dropped::Close(transport) => {
                    &&& handle.drop_action() == HandleDrop::Close(transport)
                    &&& final(self)@ == old(self)@
                },
                Dropped::CloseUnused(transport) => {
                    &&& handle.drop_action() == HandleDrop::CloseUnused(transport)
                    &&& final(self)@ == old(self)@
                },
                Dropped::Returned(returned) => {
                    let client = ClientHandle { used: false, ..handle };
                    &&& handle.drop_action() == HandleDrop::GiveBack(client)
                    &&& final(self)@ == old(self)@.returned(client)
                    &&& is_return(old(self)@, client, returned)
                },
            },
    {
        let mut handle = handle;
        match handle.on_drop() {
            HandleDrop::Nothing => Dropped::Nothing,
            HandleDrop::Close(transport) => Dropped::Close(transport),
            HandleDrop::CloseUnused(transport) => Dropped::CloseUnused(transport),
            HandleDrop::GiveBack(client) => {
                let binding = client.pool.clone();
                match binding.return_conn(self, client) {
                    Some(returned) => Dropped::Returned(returned),
                    None => Dropped::Nothing,
                }
            },
        }
    }

    /// The address of the server to connect to next. The servers take turns.
    pub fn get_addr(&mut self) -> (addr: &Host)
        requires
            old(self)@.inner.hosts.len() > 0,
        ensures
            *addr == old(self)@.inner.hosts[old(self)@.inner.connections_num as int % old(
                self,
            )@.inner.hosts.len() as int],
            final(self)@ == old(self)@.addressed(),
    {
        self.inner.next_host()
    }

    /// A connection to be opened, with the retries that the options allow.
    pub fn new_connection(&self) -> (open: RetryOpen)
        ensures
            open == new_open(self@),
    {
        let (max_attempts, retry_timeout) = match self.options.get() {
            Ok(opt) => (opt.send_retries, opt.retry_timeout),
            Err(_) => (0, Delay { secs: 0, nanos: 0 }),
        };
        RetryOpen { pool: Some(self.id), attempt: 0, max_attempts, retry_timeout }
    }

    /// Begins a sweep over the opens that wait, as far as the budget of one poll goes.
    pub fn begin_sweep<E>(&self) -> (sweep: Sweep<E>)
        ensures
            sweep.left == self@.sweep_len(),
            sweep.first_err is None,
            !sweep.wake_waiters,
    {
        let len: usize = self.inner.new_len();
        Sweep {
            left: if len < PENDING_OPEN_POLL_BUDGET {
                len
            } else {
                PENDING_OPEN_POLL_BUDGET
            },
            first_err: None,
            wake_waiters: false,
        }
    }

    /// Takes out the next open to poll.
    pub fn next_open<E>(&mut self, sweep: &mut Sweep<E>) -> (next: Option<u64>)
        ensures
            final(sweep).first_err == old(sweep).first_err,
            final(sweep).wake_waiters == old(sweep).wake_waiters,
            match next {
                Some(ticket) => {
                    &&& old(sweep).left > 0
                    &&& old(self)@.inner.new.len() > 0
                    &&& ticket == old(self)@.inner.new[0]
                    &&& final(self)@ == old(self)@.polling()
                    &&& final(sweep).left == old(sweep).left - 1
                },
                None => {
                    &&& old(sweep).left == 0 || old(self)@.inner.new.len() == 0
                    &&& final(self)@ == old(self)@
                    &&& final(sweep).left == 0
                },
            },
    {
        if sweep.left == 0 {
            return None;
        }
        match self.inner.pop_new() {
            Some(ticket) => {
                sweep.left = sweep.left - 1;
                Some(ticket)
            },
            None => {
                sweep.left = 0;
                None
            },
        }
    }

    /// Settles the open `ticket`, which was taken out and gave `polled`.
    ///
    /// The open stays counted as pending while it is polled. Where it ends it is counted
    /// out; where it needs more time it stays counted and waits again.
    pub fn settle_open<E>(
        &mut self,
        sweep: &mut Sweep<E>,
        ticket: u64,
        polled: OpenPoll<E>,
    ) -> (settled: Settled<E>)
        ensures
            final(self)@ == old(self)@.settled(ticket, polled),
            final(sweep).left == old(sweep).left,
            final(sweep).wake_waiters == (old(sweep).wake_waiters || old(self)@.wakes(polled)),
            final(sweep).first_err == (if old(sweep).first_err is Some {
                old(sweep).first_err
            } else {
                polled.error()
            }),
            match settled {
                Settled::Idle => {
                    &&& polled matches OpenPoll::Ready(Ok(_))
                    &&& old(self)@.inner.idle.len() < old(self)@.inner.idle_room
                },
                Settled::Close(client) => {
                    &&& polled == OpenPoll::<E>::Ready(Ok(client))
                    &&& old(self)@.inner.idle.len() >= old(self)@.inner.idle_room
                },
                Settled::Requeued => {
                    &&& polled is Pending
                    &&& old(self)@.inner.new.len() < old(self)@.inner.new_room
                },
                Settled::Dropped(open) => {
                    &&& polled is Pending
                    &&& old(self)@.inner.new.len() >= old(self)@.inner.new_room
                    &&& open == ticket
                },
                Settled::FirstError => polled.error() is Some && old(sweep).first_err is None,
                Settled::LaterError(error) => {
                    &&& polled.error() == Some(error)
                    &&& old(sweep).first_err is Some
                },
            },
    {
        match polled {
            OpenPoll::Ready(Ok(client)) => {
                self.inner.release_pending_open();
                sweep.wake_waiters = true;
                match self.inner.push_idle(client) {
                    Ok(()) => Settled::Idle,
                    Err(client) => {
                        self.inner.release_conn_slot();
                        Settled::Close(client)
                    },
                }
            },
            OpenPoll::Pending => match self.inner.push_new(ticket) {
                Ok(()) => Settled::Requeued,
                Err(ticket) => {
                    self.inner.release_pending_open();
                    self.inner.release_conn_slot();
                    sweep.wake_waiters = true;
                    Settled::Dropped(ticket)
                },
            },
            OpenPoll::Ready(Err(error)) => {
                self.inner.release_pending_open();
                self.inner.release_conn_slot();
                sweep.wake_waiters = true;
                if sweep.first_err.is_none() {
                    sweep.first_err = Some(error);
                    Settled::FirstError
                } else {
                    Settled::LaterError(error)
                }
            },
        }
    }

    /// What a task that asks for a connection is to do, after a sweep that ended in
    /// `swept`: use an idle client, even after an error; else return the error; else
    /// open a connection under `ticket`, where the limits allow it; else wait.
    pub fn poll_step<E>(&mut self, swept: Result<(), E>, ticket: u64) -> (step: Step<E>)
        ensures
            match step {
                Step::Use(client, passed_over) => {
                    &&& old(self)@.inner.idle.len() > 0
                    &&& client == old(self)@.leased(old(self)@.inner.idle[0])
                    &&& passed_over == swept_error(swept)
                    &&& final(self)@ == old(self)@.taken()
                },
                Step::Fail(error) => {
                    &&& old(self)@.inner.idle.len() == 0
                    &&& swept_error(swept) == Some(error)
                    &&& final(self)@ == old(self)@
                },
                Step::Open(open) => {
                    &&& old(self)@.inner.idle.len() == 0
                    &&& swept_error(swept) is None
                    &&& old(self)@.can_open()
                    &&& old(self)@.inner.new.len() < old(self)@.inner.new_room
                    &&& open == new_open(old(self)@)
                    &&& final(self)@ == old(self)@.opened(ticket)
                },
                Step::Wait => {
                    &&& old(self)@.inner.idle.len() == 0
                    &&& swept_error(swept) is None
                    &&& !(old(self)@.can_open() && old(self)@.inner.new.len() < old(
                        self,
                    )@.inner.new_room)
                    &&& final(self)@ == old(self)@
                },
            },
    {
        if let Some(client) = self.take_conn() {
            return match swept {
                Ok(()) => Step::Use(client, None),
                Err(error) => Step::Use(client, Some(error)),
            };
        }
        if let Err(error) = swept {
            return Step::Fail(error);
        }
        if self.inner.try_reserve_conn(self.max) {
            if self.inner.try_reserve_pending_open(self.pending_open_limit()) {
                let open = self.new_connection();
                if self.inner.push_new(ticket).is_ok() {
                    return Step::Open(open);
                }
                self.inner.release_pending_open();
                self.inner.release_conn_slot();
            } else {
                self.inner.release_conn_slot();
            }
        }
        Step::Wait
    }

    /// Puts `task` behind those that wait. Returns whether it is to be woken at once,
    /// because meanwhile a client became idle or a connection may be opened.
    #[must_use]
    pub fn register_task(&mut self, task: u64) -> (wake_self: bool)
        ensures
            wake_self == old(self)@.available(),
            final(self)@ == old(self)@.registered(task),
    {
        self.inner.push_task(task);
        self.inner.idle_len() > 0 || (self.inner.conn_count() < self.max
            && self.inner.pending_open_count() < self.pending_open_limit())
    }

    /// Sweeps over the opens that wait, where the n-th one that is polled gives the n-th
    /// of `polls`, and the n-th waker that is woken at the end puts the n-th of `parks`
    /// behind the tasks that wait. Opens and wakers that do more to the pool meanwhile
    /// take the single steps of a sweep instead.
    pub fn handle_futures<E>(&mut self, polls: Vec<OpenPoll<E>>, parks: Vec<Vec<u64>>) -> (swept:
        Swept<E>)
        requires
            polls@.len() == old(self)@.sweep_len(),
        ensures
            final(self)@ == old(self)@.swept(polls@),
            swept_error(swept.result) == first_error(polls@),
            swept.later_errors@ == later_errors(polls@),
            swept.woken@ == old(self)@.swept_tasks(polls@, parks_view(parks@)),
            swept.closed@ == old(self)@.refused_clients(polls@),
            swept.dropped@ == old(self)@.refused_opens(polls@),
    {
        let mut polls = polls;
        let ghost all = polls@;
        let mut sweep = self.begin_sweep();
        let mut later: Vec<E> = Vec::new();
        let mut closed: Vec<ClientHandle> = Vec::new();
        let mut dropped: Vec<u64> = Vec::new();
        let ghost mut done: nat = 0;
        assert(all.take(0) == Seq::<OpenPoll<E>>::empty());
        loop
            invariant
                done + sweep.left == all.len(),
                polls@ == all.skip(done as int),
                self@ == old(self)@.polled(all.take(done as int)),
                self@.inner.new.len() >= sweep.left,
                self@.inner.tasks == old(self)@.inner.tasks,
                sweep.first_err == first_error(all.take(done as int)),
                later@ == later_errors(all.take(done as int)),
                closed@ == old(self)@.refused_clients(all.take(done as int)),
                dropped@ == old(self)@.refused_opens(all.take(done as int)),
                sweep.wake_waiters == old(self)@.polled_wakes(all.take(done as int)),
            ensures
                done == all.len(),
            decreases sweep.left,
        {
            match self.next_open(&mut sweep) {
                Some(ticket) => {
                    let polled = polls.remove(0);
                    let settled = self.settle_open(&mut sweep, ticket, polled);
                    proof {
                        assert(all.take(done as int + 1).drop_last() == all.take(done as int));
                        done = done + 1;
                    }
                    match settled {
                        Settled::Close(client) => closed.push(client),
                        Settled::Dropped(ticket) => dropped.push(ticket),
                        Settled::LaterError(error) => later.push(error),
                        _ => {},
                    }
                },
                None => break,
            }
        }
        assert(all.take(done as int) == all);
        let (result, wake) = sweep.finish();
        let woken = if wake {
            self.inner.wake_tasks(parks)
        } else {
            Vec::new()
        };
        Swept { result, later_errors: later, woken, closed, dropped }
    }

    /// Asks for a connection, on behalf of `task`: a sweep, in which the opens that are
    /// polled give `polls` and the wakers put `parks` behind the tasks that wait, then
    /// what `poll_step` says, with `ticket` for a new open, then, where the task is to
    /// wait, what `register_task` says.
    pub fn poll<E>(
        &mut self,
        polls: Vec<OpenPoll<E>>,
        parks: Vec<Vec<u64>>,
        ticket: u64,
        task: u64,
    ) -> (polled: Polled<E>)
        requires
            polls@.len() == old(self)@.sweep_len(),
        ensures
            polled.woken@ == old(self)@.swept_tasks(polls@, parks_view(parks@)),
            polled.closed@ == old(self)@.refused_clients(polls@),
            polled.dropped@ == old(self)@.refused_opens(polls@),
            ({
                let swept = old(self)@.swept(polls@);
                match polled.result {
                    Some(Ok(client)) => {
                        &&& swept.inner.idle.len() > 0
                        &&& client == swept.leased(swept.inner.idle[0])
                        &&& polled.passed_over@ == errors(polls@)
                        &&& polled.opened is None
                        &&& !polled.wake_self
                        &&& final(self)@ == swept.taken()
                    },
                    Some(Err(error)) => {
                        &&& swept.inner.idle.len() == 0
                        &&& first_error(polls@) == Some(error)
                        &&& polled.passed_over@ == later_errors(polls@)
                        &&& polled.opened is None
                        &&& !polled.wake_self
                        &&& final(self)@ == swept
                    },
                    None => {
                        &&& swept.inner.idle.len() == 0
                        &&& first_error(polls@) is None
                        &&& polled.passed_over@.len() == 0
                        &&& polled.wake_self == swept.can_open()
                        &&& if swept.can_open() && swept.inner.new.len() < swept.inner.new_room {
                            &&& polled.opened == Some(new_open(old(self)@))
                            &&& final(self)@ == swept.opened(ticket)
                        } else {
                            &&& polled.opened is None
                            &&& final(self)@ == swept.registered(task)
                        }
                    },
                }
            }),
    {
        proof {
            lemma_polled_frame(self@, polls@);
        }
        let Swept { result: swept, later_errors, woken, closed, dropped } = self.handle_futures(
            polls,
            parks,
        );
        let mut passed_over = later_errors;
        let mut result: Option<Result<ClientHandle, E>> = None;
        let mut opened: Option<RetryOpen> = None;
        let mut wake_self = false;
        match self.poll_step(swept, ticket) {
            Step::Use(client, error) => {
                if let Some(error) = error {
                    passed_over.insert(0, error);
                }
                assert(passed_over@ == errors(polls@));
                result = Some(Ok(client));
            },
            Step::Fail(error) => {
                result = Some(Err(error));
            },
            Step::Open(open) => {
                opened = Some(open);
                wake_self = true;
            },
            Step::Wait => {
                wake_self = self.register_task(task);
            },
        }
        Polled { result, opened, woken, wake_self, passed_over, closed, dropped }
    }
}

impl PoolBinding {
    /// Gives `client` back to the pool that the binding names, which is `pool`. Does
    /// nothing where the binding names none.
    #[must_use]
    pub fn return_conn(self, pool: &mut Pool, client: ClientHandle) -> (returned: Option<Returned>)
        requires
            self.pool() is Some ==> self.pool() == Some(old(pool)@.id),
        ensures
            match returned {
                Some(returned) => {
                    &&& self.pool() is Some
                    &&& final(pool)@ == old(pool)@.returned(client)
                    &&& is_return(old(pool)@, client, returned)
                },
                None => self.pool() is None && final(pool)@ == old(pool)@,
            },
    {
        let bound: Option<PoolId> = Option::from(self);
        match bound {
            Some(_) => Some(pool.return_conn(client)),
            None => None,
        }
    }
}

/// The numbers that describe a pool to a reader, each with its name.
pub open spec fn described(pool: PoolView) -> Seq<(Seq<char>, nat)> {
    seq![
        ("min"@, pool.min),
        ("max"@, pool.max),
        ("new connections count"@, pool.inner.new.len()),
        ("pending open connections count"@, pool.inner.pending_opens),
        ("pending open connections limit"@, pool.limit()),
        ("idle connections count"@, pool.inner.idle.len()),
        ("tasks count"@, pool.inner.tasks.len()),
        ("ongoing connections count"@, pool.inner.ongoing),
    ]
}

/// The connection that a pool opens next.
pub open spec fn new_open(pool: PoolView) -> RetryOpen {
    RetryOpen {
        pool: Some(pool.id),
        attempt: 0,
        max_attempts: source_retry(pool.options).0,
        retry_timeout: source_retry(pool.options).1,
    }
}

/// What becomes of `client` when a user gives it back to `pool`.
pub open spec fn is_return(pool: PoolView, client: ClientHandle, returned: Returned) -> bool {
    match returned {
        Returned::NotOngoing(closed) => {
            &&& pool.inner.ongoing == 0
            &&& closed == parked(client)
        },
        Returned::Kept => {
            &&& pool.inner.ongoing > 0
            &&& pool.keeps(client)
        },
        Returned::Refused(closed) => {
            &&& pool.inner.ongoing > 0
            &&& pool.wants(client)
            &&& !pool.keeps(client)
            &&& closed == parked(client)
        },
        Returned::Close(closed) => {
            &&& pool.inner.ongoing > 0
            &&& !pool.wants(client)
            &&& closed == parked(client)
        },
    }
}

/// The error that a sweep ended with.
pub open spec fn swept_error<E>(swept: Result<(), E>) -> Option<E> {
    match swept {
        Ok(_) => None,
        Err(error) => Some(error),
    }
}

} // verus!
