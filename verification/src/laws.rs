//! What holds of a pool as a whole.

use vstd::prelude::*;

use crate::binding::{PoolBinding, PoolId};
use crate::client::ClientHandle;
use crate::host::Host;
use crate::inner::{open_limit, woken_tasks, InnerView, PENDING_OPEN_LIMIT};
use crate::model::{errors, first_error, lemma_polled_frame, parked, OpenPoll, PoolView};
use crate::model::PENDING_OPEN_POLL_BUDGET;
use crate::options::OptionsSource;
use crate::pool::{fresh_pool, source_max};
use crate::retry::{Attempt, Retry, RetryOpen};

verus! {

impl PoolView {
    /// Every connection that is counted is being opened, idle or in the hands of a user;
    /// the opens that wait are among those that are counted; and neither limit is passed.
    pub open spec fn accounted(self) -> bool {
        &&& self.wf()
        &&& self.inner.conn_slots == self.inner.pending_opens + self.inner.idle.len()
            + self.inner.ongoing
        &&& self.inner.new.len() <= self.inner.pending_opens <= self.limit()
        &&& self.inner.conn_slots <= self.max
    }

    /// An open is being polled: it is counted, but does not wait.
    pub open spec fn in_flight(self) -> bool {
        self.inner.new.len() < self.inner.pending_opens
    }

    /// No task waits while it could go on.
    pub open spec fn waits_for_cause(self) -> bool {
        self.inner.tasks.len() > 0 ==> !self.available()
    }
}

/// A new pool is accounted for, and nobody waits for it.
pub proof fn law_fresh_pool_is_accounted(id: PoolId, source: OptionsSource)
    requires
        0 < source_max(source),
    ensures
        fresh_pool(id, source).accounted(),
        fresh_pool(id, source).waits_for_cause(),
        (Watched { pool: fresh_pool(id, source), told: Seq::empty(), due: 0 }).nobody_in_vain(),
{
}

/// A pool that is accounted for never has more than its maximum of connections, idle
/// and in use taken together, and never opens more at once than the limit on opens.
pub proof fn law_limits_are_kept(pool: PoolView)
    requires
        pool.accounted(),
    ensures
        pool.inner.idle.len() + pool.inner.ongoing + pool.inner.pending_opens <= pool.max,
        pool.inner.pending_opens <= PENDING_OPEN_LIMIT,
        pool.inner.pending_opens <= pool.max,
{
}

/// Where the limits allow one more open, there is room for it.
pub proof fn law_an_open_has_room(pool: PoolView)
    requires
        pool.accounted(),
        pool.can_open(),
    ensures
        pool.inner.new.len() < pool.inner.new_room,
{
}

/// A connection that was opened finds room among the idle ones, and an open that needs
/// more time finds room among those that wait: neither is ever dropped.
pub proof fn law_nothing_polled_is_dropped(pool: PoolView)
    requires
        pool.accounted(),
        pool.in_flight(),
    ensures
        pool.inner.idle.len() < pool.inner.idle_room,
        pool.inner.new.len() < pool.inner.new_room,
{
}

/// A step of a pool. Many tasks take such steps, in any order.
pub enum Event<E> {
    /// A user takes an idle client.
    Take,
    /// An open is started, under a ticket.
    Open(u64),
    /// An open is taken out to be polled.
    Poll,
    /// An open, taken out before, was polled.
    Settle(u64, OpenPoll<E>),
    /// A task is taken out to be woken.
    Wake,
    /// A task registers as waiting.
    Register(u64),
    /// A user gives a client back.
    Return(ClientHandle),
    /// The connection of a user is lost.
    Release,
    /// An address is handed out.
    Address,
}

impl PoolView {
    /// When a step can be taken.
    pub open spec fn allows<E>(self, event: Event<E>) -> bool {
        match event {
            Event::Take => self.inner.idle.len() > 0,
            Event::Open(_) => self.can_open() && self.inner.new.len() < self.inner.new_room,
            Event::Poll => self.inner.new.len() > 0,
            Event::Settle(_, _) => self.in_flight(),
            Event::Wake => self.inner.tasks.len() > 0,
            _ => true,
        }
    }

    /// The pool after a step.
    pub open spec fn after<E>(self, event: Event<E>) -> PoolView {
        match event {
            Event::Take => self.taken(),
            Event::Open(ticket) => self.opened(ticket),
            Event::Poll => self.polling(),
            Event::Settle(ticket, polled) => self.settled(ticket, polled),
            Event::Wake => self.waking(),
            Event::Register(task) => self.registered(task),
            Event::Return(client) => self.returned(client),
            Event::Release => self.released(),
            Event::Address => self.addressed(),
        }
    }

    /// Whether a step is one after which the tasks that wait are to be woken.
    pub open spec fn calls_for_waking<E>(self, event: Event<E>) -> bool {
        match event {
            Event::Settle(_, polled) => self.wakes(polled),
            Event::Return(_) => self.wakes_on_return(),
            Event::Release => self.wakes_on_return(),
            _ => false,
        }
    }

    /// Whether all the steps can be taken, one after the other.
    pub open spec fn allows_all<E>(self, events: Seq<Event<E>>) -> bool
        decreases events.len(),
    {
        events.len() > 0 ==> {
            &&& self.allows_all(events.drop_last())
            &&& self.after_all(events.drop_last()).allows(events.last())
        }
    }

    /// The pool after all the steps.
    pub open spec fn after_all<E>(self, events: Seq<Event<E>>) -> PoolView
        decreases events.len(),
    {
        if events.len() == 0 {
            self
        } else {
            self.after_all(events.drop_last()).after(events.last())
        }
    }
}

/// Every step leaves a pool accounted for.
pub proof fn law_steps_keep_accounts<E>(pool: PoolView, event: Event<E>)
    requires
        pool.accounted(),
        pool.allows(event),
    ensures
        pool.after(event).accounted(),
{
}

/// However the steps of many tasks are interleaved, a pool stays accounted for.
pub proof fn law_any_interleaving_keeps_accounts<E>(pool: PoolView, events: Seq<Event<E>>)
    requires
        pool.accounted(),
        pool.allows_all(events),
    ensures
        pool.after_all(events).accounted(),
    decreases events.len(),
{
    if events.len() > 0 {
        law_any_interleaving_keeps_accounts(pool, events.drop_last());
        law_steps_keep_accounts(pool.after_all(events.drop_last()), events.last());
    }
}

/// How many opens were taken out to be polled in these steps.
pub open spec fn polls_in<E>(events: Seq<Event<E>>) -> int
    decreases events.len(),
{
    if events.len() == 0 {
        0
    } else {
        polls_in(events.drop_last()) + if events.last() is Poll {
            1int
        } else {
            0int
        }
    }
}

/// How many opens were settled in these steps.
pub open spec fn settled_in<E>(events: Seq<Event<E>>) -> int
    decreases events.len(),
{
    if events.len() == 0 {
        0
    } else {
        settled_in(events.drop_last()) + if events.last() is Settle {
            1int
        } else {
            0int
        }
    }
}

/// However the steps are interleaved, the opens that are counted are those that wait
/// and those that were taken out to be polled and are not settled yet.
pub proof fn law_opens_are_waiting_or_polled<E>(pool: PoolView, events: Seq<Event<E>>)
    requires
        pool.accounted(),
        !pool.in_flight(),
        pool.allows_all(events),
    ensures
        pool.after_all(events).inner.pending_opens == pool.after_all(events).inner.new.len()
            + polls_in(events) - settled_in(events),
    decreases events.len(),
{
    if events.len() > 0 {
        let earlier = events.drop_last();
        law_opens_are_waiting_or_polled(pool, earlier);
        law_any_interleaving_keeps_accounts(pool, earlier);
        if events.last() is Settle {
            law_nothing_polled_is_dropped(pool.after_all(earlier));
        }
    }
}

/// A step after which a connection may be had, where none could be had before, is one
/// after which the tasks that wait are to be woken.
pub proof fn law_what_becomes_available_wakes<E>(pool: PoolView, event: Event<E>)
    requires
        pool.allows(event),
        !pool.available(),
        pool.after(event).available(),
    ensures
        pool.calls_for_waking(event),
{
}

/// A pool, with what its tasks were told and what wake-ups are under way.
pub struct Watched {
    /// The pool.
    pub pool: PoolView,
    /// Of each task that waits, whether it was told to wake at once when it registered.
    pub told: Seq<bool>,
    /// How many steps called for the tasks to be woken where that is not over yet.
    pub due: nat,
}

/// A step of a pool, or the end of a wake-up.
pub enum WatchedEvent<E> {
    /// A step of the pool.
    Step(Event<E>),
    /// No task is left to be woken: as many calls as this are answered.
    AllWoken(nat),
}

impl Watched {
    /// No task waits in vain: while no wake-up is under way, a task that waits although a
    /// connection may be had was told to wake at once.
    pub open spec fn nobody_in_vain(self) -> bool {
        &&& self.told.len() == self.pool.inner.tasks.len()
        &&& self.due == 0 && self.pool.available() ==> forall|i: int|
            0 <= i < self.told.len() ==> #[trigger] self.told[i]
    }

    /// When a step can be taken.
    pub open spec fn allows<E>(self, event: WatchedEvent<E>) -> bool {
        match event {
            WatchedEvent::Step(event) => self.pool.allows(event),
            WatchedEvent::AllWoken(calls) => self.pool.inner.tasks.len() == 0 && calls <= self.due,
        }
    }

    /// The pool, and what is known of it, after a step.
    pub open spec fn after<E>(self, event: WatchedEvent<E>) -> Watched {
        match event {
            WatchedEvent::Step(event) => Watched {
                pool: self.pool.after(event),
                told: match event {
                    Event::Register(_) => self.told.push(self.pool.available()),
                    Event::Wake => self.told.skip(1),
                    _ => self.told,
                },
                due: if self.pool.calls_for_waking(event) {
                    self.due + 1
                } else {
                    self.due
                },
            },
            WatchedEvent::AllWoken(calls) => Watched { due: (self.due - calls) as nat, ..self },
        }
    }

    /// Whether all the steps can be taken, one after the other.
    pub open spec fn allows_all<E>(self, events: Seq<WatchedEvent<E>>) -> bool
        decreases events.len(),
    {
        events.len() > 0 ==> {
            &&& self.allows_all(events.drop_last())
            &&& self.after_all(events.drop_last()).allows(events.last())
        }
    }

    /// The pool, and what is known of it, after all the steps.
    pub open spec fn after_all<E>(self, events: Seq<WatchedEvent<E>>) -> Watched
        decreases events.len(),
    {
        if events.len() == 0 {
            self
        } else {
            self.after_all(events.drop_last()).after(events.last())
        }
    }
}

/// However the steps of many tasks are interleaved, with each other and with tasks that
/// are being woken, no task waits in vain.
pub proof fn law_no_wake_up_is_lost<E>(watched: Watched, events: Seq<WatchedEvent<E>>)
    requires
        watched.nobody_in_vain(),
        watched.allows_all(events),
    ensures
        watched.after_all(events).nobody_in_vain(),
    decreases events.len(),
{
    if events.len() > 0 {
        let before = watched.after_all(events.drop_last());
        let after = watched.after_all(events);
        law_no_wake_up_is_lost(watched, events.drop_last());
        if let WatchedEvent::Step(event) = events.last() {
            if after.due == 0 && after.pool.available() {
                assert(before.due == 0 && before.pool.available());
                assert forall|i: int| 0 <= i < after.told.len() implies #[trigger] after.told[i] by {
                    if event is Wake {
                        assert(before.told[i + 1]);
                    } else if i < before.told.len() {
                        assert(before.told[i]);
                    }
                }
            }
        }
    }
}

/// To wake the tasks is to wake those that wait, in their order, and then those that the
/// wakers put back meanwhile, in theirs. Where they put nothing back, it is to wake just
/// those that wait.
pub proof fn law_what_wakers_put_back_is_woken(tasks: Seq<u64>, parks: Seq<Seq<u64>>)
    ensures
        ({
            let woken = woken_tasks(tasks, parks);
            woken == tasks + parks.take(
                if parks.len() < woken.len() {
                    parks.len() as int
                } else {
                    woken.len() as int
                },
            ).flatten()
        }),
        parks.len() == 0 ==> woken_tasks(tasks, parks) == tasks,
    decreases parks.len(),
{
    let woken = woken_tasks(tasks, parks);
    let count = if parks.len() < woken.len() {
        parks.len() as int
    } else {
        woken.len() as int
    };
    let used = parks.take(count);
    if tasks.len() > 0 && parks.len() > 0 {
        let rest = tasks.skip(1) + parks[0];
        law_what_wakers_put_back_is_woken(rest, parks.skip(1));
        assert(used.drop_first() == parks.skip(1).take(count - 1));
        assert(used.first() == parks[0]);
        assert(tasks == seq![tasks[0]] + tasks.skip(1));
        assert(woken == tasks + used.flatten());
    } else {
        assert(used.len() == 0);
        assert(woken == tasks + used.flatten());
    }
}

/// Those of `tickets` whose opens need more time, in their order.
pub open spec fn requeued<E>(tickets: Seq<u64>, polls: Seq<OpenPoll<E>>) -> Seq<u64>
    decreases polls.len(),
{
    if polls.len() == 0 {
        Seq::empty()
    } else if polls.last() is Pending {
        requeued(tickets, polls.drop_last()).push(tickets[polls.len() - 1])
    } else {
        requeued(tickets, polls.drop_last())
    }
}

/// The clients that a sweep obtained.
pub open spec fn obtained<E>(polls: Seq<OpenPoll<E>>) -> Seq<ClientHandle>
    decreases polls.len(),
{
    if polls.len() == 0 {
        Seq::empty()
    } else {
        match polls.last() {
            OpenPoll::Ready(Ok(client)) => obtained(polls.drop_last()).push(client),
            _ => obtained(polls.drop_last()),
        }
    }
}

/// What a sweep does to a pool that is accounted for: the opens that are polled are the
/// first that waited, in their order; those that need more time go behind the others;
/// the clients of those that succeeded become idle; each failure frees a connection;
/// nothing is dropped for want of room; and the pool stays accounted for.
pub proof fn law_sweep_in_full<E>(pool: PoolView, polls: Seq<OpenPoll<E>>)
    requires
        pool.accounted(),
        polls.len() <= pool.inner.new.len(),
    ensures
        pool.polled(polls).accounted(),
        pool.polled(polls).inner.new == pool.inner.new.skip(polls.len() as int) + requeued(
            pool.inner.new,
            polls,
        ),
        pool.polled(polls).inner.idle == pool.inner.idle + obtained(polls),
        pool.polled(polls).inner.conn_slots == pool.inner.conn_slots - errors(polls).len(),
        pool.polled(polls).inner.pending_opens == pool.inner.pending_opens - obtained(
            polls,
        ).len() - errors(polls).len(),
        pool.refused_clients(polls).len() == 0,
        pool.refused_opens(polls).len() == 0,
    decreases polls.len(),
{
    if polls.len() > 0 {
        let earlier = polls.drop_last();
        let before = pool.polled(earlier);
        let again = requeued(pool.inner.new, earlier);
        law_sweep_in_full(pool, earlier);
        lemma_next_in_line(pool.inner.new, earlier.len() as int, again);
        lemma_one_open(before, polls.last());
        match polls.last() {
            OpenPoll::Pending => {},
            OpenPoll::Ready(Ok(client)) => {
                lemma_push_behind(pool.inner.idle, obtained(earlier), client);
            },
            OpenPoll::Ready(Err(_)) => {},
        }
    }
}

/// The first of those that wait, and the rest, with it put behind them or not.
proof fn lemma_next_in_line(line: Seq<u64>, count: int, again: Seq<u64>)
    requires
        0 <= count < line.len(),
    ensures
        (line.skip(count) + again)[0] == line[count],
        (line.skip(count) + again).skip(1) == line.skip(count + 1) + again,
        (line.skip(count) + again).skip(1).push(line[count]) == line.skip(count + 1) + again.push(
            line[count],
        ),
{
    assert((line.skip(count) + again).skip(1) =~= line.skip(count + 1) + again);
    lemma_push_behind(line.skip(count + 1), again, line[count]);
}

/// To put an item behind two sequences is to put it behind the second.
proof fn lemma_push_behind<A>(front: Seq<A>, back: Seq<A>, item: A)
    ensures
        (front + back).push(item) == front + back.push(item),
{
    assert((front + back).push(item) =~= front + back.push(item));
}

/// What polling the open that has waited longest does to a pool that is accounted for.
proof fn lemma_one_open<E>(pool: PoolView, polled: OpenPoll<E>)
    requires
        pool.accounted(),
        pool.inner.new.len() > 0,
    ensures
        pool.polling().inner.new.len() < pool.inner.new_room,
        polled matches OpenPoll::Ready(Ok(_)) ==> pool.inner.idle.len() < pool.inner.idle_room,
        ({
            let after = pool.polling().settled(pool.inner.new[0], polled);
            &&& after.accounted()
            &&& after.inner == match polled {
                OpenPoll::Pending => InnerView {
                    new: pool.inner.new.skip(1).push(pool.inner.new[0]),
                    ..pool.inner
                },
                OpenPoll::Ready(Ok(client)) => InnerView {
                    new: pool.inner.new.skip(1),
                    idle: pool.inner.idle.push(client),
                    pending_opens: (pool.inner.pending_opens - 1) as nat,
                    ..pool.inner
                },
                OpenPoll::Ready(Err(_)) => InnerView {
                    new: pool.inner.new.skip(1),
                    conn_slots: (pool.inner.conn_slots - 1) as nat,
                    pending_opens: (pool.inner.pending_opens - 1) as nat,
                    ..pool.inner
                },
            }
        }),
{
    law_steps_keep_accounts(pool, Event::<E>::Poll);
    law_nothing_polled_is_dropped(pool.polling());
    law_steps_keep_accounts(pool.polling(), Event::Settle(pool.inner.new[0], polled));
}

/// One sweep polls no more opens than its budget, and in a well-formed pool it polls
/// each one that waits.
pub proof fn law_sweep_reaches_every_open(pool: PoolView)
    ensures
        pool.sweep_len() <= PENDING_OPEN_POLL_BUDGET,
        pool.wf() ==> pool.sweep_len() == pool.inner.new.len(),
{
}

/// An open that ends, with a client or an error, wakes all the tasks that wait.
pub proof fn law_an_ended_open_wakes_all<E>(pool: PoolView, polls: Seq<OpenPoll<E>>, i: int)
    requires
        0 <= i < polls.len(),
        polls[i] is Ready,
    ensures
        pool.polled_wakes(polls),
        pool.swept(polls).inner.tasks.len() == 0,
    decreases polls.len(),
{
    if i < polls.len() - 1 {
        law_an_ended_open_wakes_all(pool, polls.drop_last(), i);
    }
}

/// A sweep in which every open needs more time changes nothing, and wakes nobody.
pub proof fn law_a_sweep_without_news_changes_nothing<E>(pool: PoolView, polls: Seq<OpenPoll<E>>)
    requires
        pool.accounted(),
        polls.len() == pool.sweep_len(),
        forall|i: int| 0 <= i < polls.len() ==> polls[i] is Pending,
    ensures
        !pool.polled_wakes(polls),
        pool.swept(polls) == pool,
{
    lemma_all_pending(pool, polls);
    law_sweep_in_full(pool, polls);
    lemma_polled_frame(pool, polls);
    law_sweep_reaches_every_open(pool);
    assert(pool.polled(polls).inner.new == pool.inner.new);
    assert(pool.polled(polls).inner.idle == pool.inner.idle);
}

/// Where every open needs more time, each waits again, and nobody is woken.
proof fn lemma_all_pending<E>(pool: PoolView, polls: Seq<OpenPoll<E>>)
    requires
        pool.accounted(),
        polls.len() <= pool.inner.new.len(),
        forall|i: int| 0 <= i < polls.len() ==> polls[i] is Pending,
    ensures
        !pool.polled_wakes(polls),
        requeued(pool.inner.new, polls) == pool.inner.new.take(polls.len() as int),
        obtained(polls).len() == 0,
        errors(polls).len() == 0,
    decreases polls.len(),
{
    if polls.len() > 0 {
        let earlier = polls.drop_last();
        assert forall|i: int| 0 <= i < earlier.len() implies earlier[i] is Pending by {
            assert(polls[i] is Pending);
        }
        lemma_all_pending(pool, earlier);
        law_sweep_in_full(pool, earlier);
        assert(polls.last() is Pending);
        law_steps_keep_accounts(pool.polled(earlier), Event::<E>::Poll);
        law_nothing_polled_is_dropped(pool.polled(earlier).polling());
    }
}

/// A sweep leaves nobody waiting who could go on.
pub proof fn law_a_sweep_strands_nobody<E>(pool: PoolView, polls: Seq<OpenPoll<E>>)
    requires
        pool.accounted(),
        pool.waits_for_cause(),
        polls.len() == pool.sweep_len(),
    ensures
        pool.swept(polls).accounted(),
        pool.swept(polls).waits_for_cause(),
{
    law_sweep_in_full(pool, polls);
    lemma_polled_frame(pool, polls);
    if !pool.polled_wakes(polls) {
        assert forall|i: int| 0 <= i < polls.len() implies polls[i] is Pending by {
            if polls[i] is Ready {
                law_an_ended_open_wakes_all(pool, polls, i);
            }
        }
        law_a_sweep_without_news_changes_nothing(pool, polls);
    }
}

/// Whatever a task gets that asks for a connection, the pool stays accounted for and
/// nobody waits who could go on. A task that is told to wait waits for a cause, and a
/// task for which a connection may be opened gets one opened.
pub proof fn law_asking_strands_nobody<E>(
    pool: PoolView,
    polls: Seq<OpenPoll<E>>,
    ticket: u64,
    task: u64,
)
    requires
        pool.accounted(),
        pool.waits_for_cause(),
        polls.len() == pool.sweep_len(),
    ensures
        ({
            let swept = pool.swept(polls);
            &&& swept.accounted() && swept.waits_for_cause()
            &&& swept.inner.idle.len() > 0 ==> swept.taken().accounted()
                && swept.taken().waits_for_cause()
            &&& swept.inner.idle.len() == 0 && swept.can_open() ==> {
                &&& swept.inner.new.len() < swept.inner.new_room
                &&& swept.opened(ticket).accounted()
                &&& swept.opened(ticket).waits_for_cause()
            }
            &&& swept.inner.idle.len() == 0 && !swept.can_open() ==> {
                &&& swept.registered(task).accounted()
                &&& swept.registered(task).waits_for_cause()
            }
        }),
{
    law_a_sweep_strands_nobody(pool, polls);
}

/// Giving a client back, or losing its connection, leaves nobody waiting who could go
/// on: nothing changes, or the tasks that wait are to be woken.
pub proof fn law_giving_back_strands_nobody(pool: PoolView, client: ClientHandle)
    requires
        pool.accounted(),
        pool.waits_for_cause(),
    ensures
        pool.returned(client).accounted(),
        pool.released().accounted(),
        if pool.wakes_on_return() {
            &&& pool.returned(client).awake().waits_for_cause()
            &&& pool.released().awake().waits_for_cause()
        } else {
            &&& pool.returned(client).waits_for_cause()
            &&& pool.released().waits_for_cause()
        },
{
}

/// A task that waits for a cause waits for someone: an open is under way or a connection
/// is in use, and its end wakes the task.
pub proof fn law_who_waits_waits_for_someone(pool: PoolView)
    requires
        pool.accounted(),
        pool.waits_for_cause(),
        pool.inner.tasks.len() > 0,
    ensures
        pool.inner.pending_opens + pool.inner.ongoing > 0,
{
}

/// A connection that is given back never makes more idle than the pool keeps; where more
/// are idle already, because opens were completed, it makes none more.
pub proof fn law_no_more_than_the_minimum_is_kept(pool: PoolView, client: ClientHandle)
    ensures
        pool.returned(client).inner.idle.len() <= (if pool.inner.idle.len() > pool.min {
            pool.inner.idle.len()
        } else {
            pool.min
        }),
{
}

/// A connection that is taken and given back, attached, while the pool has fewer idle
/// ones than it keeps, keeps its slot and is idle again, behind the others.
pub proof fn law_a_kept_connection_keeps_its_slot(pool: PoolView)
    requires
        pool.accounted(),
        0 < pool.inner.idle.len() <= pool.min,
        pool.inner.idle[0].inner is Some,
    ensures
        ({
            let first = pool.inner.idle[0];
            let after = pool.taken().returned(pool.leased(first));
            &&& after.inner.conn_slots == pool.inner.conn_slots
            &&& after.inner.ongoing == pool.inner.ongoing
            &&& after.inner.idle == pool.inner.idle.skip(1).push(parked(pool.leased(first)))
            &&& parked(pool.leased(first)).inner->0.stream == first.inner->0.stream
        }),
{
}

/// A connection that is taken and given back, attached, is closed and its slot is free
/// where the pool has as many idle ones as it keeps without it, or where it has no
/// transport.
pub proof fn law_a_surplus_connection_frees_its_slot(pool: PoolView)
    requires
        pool.accounted(),
        0 < pool.inner.idle.len(),
        pool.inner.idle.len() > pool.min || pool.inner.idle[0].inner is None,
    ensures
        ({
            let after = pool.taken().returned(pool.leased(pool.inner.idle[0]));
            &&& after.inner.conn_slots == pool.inner.conn_slots - 1
            &&& after.inner.ongoing == pool.inner.ongoing
            &&& after.inner.idle == pool.inner.idle.skip(1)
        }),
{
}

/// A connection that is given back detached is closed, and its slot is free, however
/// many idle ones there are.
pub proof fn law_a_detached_connection_frees_its_slot(pool: PoolView, client: ClientHandle)
    requires
        pool.accounted(),
        pool.inner.ongoing > 0,
        client.pool is Detached,
    ensures
        !pool.keeps(client),
        pool.returned(client).inner.idle == pool.inner.idle,
        pool.returned(client).inner.conn_slots == pool.inner.conn_slots - 1,
        pool.returned(client).inner.ongoing == pool.inner.ongoing - 1,
{
}

/// A client that was taken from a pool goes back to the very pool when it goes out of
/// scope; one that was not is never counted out.
pub proof fn law_a_lease_ends_where_it_began(pool: PoolView, client: ClientHandle)
    requires
        client.inner is Some,
    ensures
        pool.leased(client).pool.pool() == Some(pool.id),
        pool.leased(client).drop_action() is GiveBack,
        pool.leased(client).drop_action()->GiveBack_0.pool == PoolBinding::Attached(pool.id),
        !client.used ==> client.drop_action() !is GiveBack,
{
}

/// Attaching undoes detaching, and detaching undoes attaching; the pool stays the same.
pub proof fn law_attach_and_detach_undo_each_other(binding: PoolBinding)
    ensures
        binding is Attached ==> binding.detached().attached() == binding,
        binding is Detached ==> binding.attached().detached() == binding,
        binding.detached().pool() == binding.pool(),
        binding.attached().pool() == binding.pool(),
{
}

/// Freeing a slot undoes taking it, and counting an open out undoes counting it in.
pub proof fn law_release_undoes_reserve(inner: InnerView, max: nat)
    ensures
        inner.conn_slots < max ==> inner.conn_reserved(max).conn_slot_released() == inner,
        inner.pending_opens < max ==> inner.pending_open_reserved(max).pending_open_released()
            == inner,
{
}

/// A step that changes one of the counters that have a limit.
pub enum Count {
    /// An attempt to take a slot for a connection.
    ReserveConn,
    /// An attempt to count an open in.
    ReservePendingOpen,
    /// The slot of a connection is freed.
    ReleaseConnSlot,
    /// An open is counted out.
    ReleasePendingOpen,
}

impl InnerView {
    /// The state after such steps, in a pool of at most `max` connections.
    pub open spec fn counted(self, max: nat, steps: Seq<Count>) -> InnerView
        decreases steps.len(),
    {
        if steps.len() == 0 {
            self
        } else {
            let before = self.counted(max, steps.drop_last());
            match steps.last() {
                Count::ReserveConn => before.conn_reserved(max),
                Count::ReservePendingOpen => before.pending_open_reserved(open_limit(max)),
                Count::ReleaseConnSlot => before.conn_slot_released(),
                Count::ReleasePendingOpen => before.pending_open_released(),
            }
        }
    }
}

/// Tasks that take and free slots one at a time, in whatever order, never pass the limit
/// on connections or that on opens, even in the midst of an operation.
pub proof fn law_reservations_never_pass_the_limits(inner: InnerView, max: nat, steps: Seq<Count>)
    requires
        inner.conn_slots <= max,
        inner.pending_opens <= open_limit(max),
    ensures
        inner.counted(max, steps).conn_slots <= max,
        inner.counted(max, steps).pending_opens <= open_limit(max),
    decreases steps.len(),
{
    if steps.len() > 0 {
        law_reservations_never_pass_the_limits(inner, max, steps.drop_last());
    }
}

impl PoolView {
    /// The address that the pool hands out next.
    pub open spec fn next_addr(self) -> Host {
        self.inner.hosts[self.inner.connections_num as int % self.inner.hosts.len() as int]
    }

    /// The pool after `count` addresses were handed out.
    pub open spec fn addressed_times(self, count: nat) -> PoolView
        decreases count,
    {
        if count == 0 {
            self
        } else {
            self.addressed_times((count - 1) as nat).addressed()
        }
    }
}

/// The addresses that are handed out are counted, from zero again past the greatest
/// `usize`, and the count says whose turn it is. So the servers take turns, in their
/// order, as long as the count does not pass the greatest `usize`, and for ever where
/// their number divides the numbers that it goes through.
pub proof fn law_servers_take_turns(pool: PoolView, count: nat)
    requires
        pool.inner.hosts.len() > 0,
        pool.inner.connections_num <= usize::MAX,
    ensures
        pool.addressed_times(count) == pool.with(
            InnerView {
                connections_num: ((pool.inner.connections_num + count) as int % (usize::MAX
                    + 1)) as nat,
                ..pool.inner
            },
        ),
        pool.inner.connections_num + count <= usize::MAX || (usize::MAX + 1)
            % pool.inner.hosts.len() as int == 0 ==> pool.addressed_times(count).next_addr()
            == pool.inner.hosts[(pool.inner.connections_num + count) as int
            % pool.inner.hosts.len() as int],
    decreases count,
{
    let all = usize::MAX + 1;
    let n = pool.inner.hosts.len() as int;
    let total = (pool.inner.connections_num + count) as int;
    if count == 0 {
        vstd::arithmetic::div_mod::lemma_small_mod(pool.inner.connections_num, all as nat);
    } else {
        law_servers_take_turns(pool, (count - 1) as nat);
        lemma_next_count(total - 1, all);
    }
    if total < all {
        vstd::arithmetic::div_mod::lemma_small_mod(total as nat, all as nat);
    } else if all % n == 0 {
        vstd::arithmetic::div_mod::lemma_fundamental_div_mod(all, n);
        let times = all / n;
        assert(times > 0) by (nonlinear_arith)
            requires
                all > 0,
                n > 0,
                all == n * times,
        ;
        vstd::arithmetic::div_mod::lemma_mod_mod(total, n, times);
    }
}

/// Counting one more, from zero again at `all`.
proof fn lemma_next_count(total: int, all: int)
    requires
        0 <= total,
        0 < all,
    ensures
        (total + 1) % all == (if total % all == all - 1 {
            0
        } else {
            total % all + 1
        }),
{
    vstd::arithmetic::div_mod::lemma_fundamental_div_mod(total, all);
    vstd::arithmetic::div_mod::lemma_mod_bound(total, all);
    let rounds = total / all;
    assert(all * rounds == rounds * all) by (nonlinear_arith);
    if total % all == all - 1 {
        assert(total + 1 == all * (rounds + 1)) by (nonlinear_arith)
            requires
                total == all * rounds + (all - 1),
        ;
        vstd::arithmetic::div_mod::lemma_fundamental_div_mod_converse(
            total + 1,
            all,
            rounds + 1,
            0,
        );
    } else {
        vstd::arithmetic::div_mod::lemma_fundamental_div_mod_converse(
            total + 1,
            all,
            rounds,
            total % all + 1,
        );
    }
}

/// Among as many addresses in a row as there are servers, each server has its turn, where
/// the count of the addresses does not pass the greatest `usize` meanwhile, or where the
/// number of servers divides the numbers that it goes through.
pub proof fn law_every_server_has_its_turn(pool: PoolView, i: int) -> (turn: nat)
    requires
        0 <= i < pool.inner.hosts.len(),
        pool.inner.connections_num <= usize::MAX,
        pool.inner.connections_num + pool.inner.hosts.len() - 1 <= usize::MAX || (usize::MAX + 1)
            % pool.inner.hosts.len() as int == 0,
    ensures
        turn < pool.inner.hosts.len(),
        pool.addressed_times(turn).next_addr() == pool.inner.hosts[i],
{
    let n = pool.inner.hosts.len() as int;
    let now = pool.inner.connections_num as int % n;
    let turn = if i >= now {
        (i - now) as nat
    } else {
        (i - now + n) as nat
    };
    let count = pool.inner.connections_num as int;
    vstd::arithmetic::div_mod::lemma_fundamental_div_mod(count, n);
    let rounds = if i >= now {
        count / n
    } else {
        count / n + 1
    };
    assert((count + turn) == n * rounds + i) by {
        assert(n * (count / n + 1) == n * (count / n) + n) by (nonlinear_arith);
    }
    vstd::arithmetic::div_mod::lemma_fundamental_div_mod_converse(count + turn, n, rounds, i);
    law_servers_take_turns(pool, turn);
    turn
}

impl RetryOpen {
    /// The opening after attempts that ended in `ends`.
    pub open spec fn after_all(self, ends: Seq<Attempt>) -> RetryOpen
        decreases ends.len(),
    {
        if ends.len() == 0 {
            self
        } else {
            self.after_all(ends.drop_last()).after(ends.last())
        }
    }

    /// How many waits there are between these attempts.
    pub open spec fn waits(self, ends: Seq<Attempt>) -> nat
        decreases ends.len(),
    {
        if ends.len() == 0 {
            0
        } else {
            self.waits(ends.drop_last()) + if self.after_all(ends.drop_last()).next(
                ends.last(),
            ) is Sleep {
                1nat
            } else {
                0nat
            }
        }
    }
}

/// However its attempts end, an opening waits no more often than its retries allow.
pub proof fn law_retries_are_bounded(open: RetryOpen, ends: Seq<Attempt>)
    ensures
        open.waits(ends) <= (if open.attempt < open.max_attempts {
            open.max_attempts - open.attempt
        } else {
            0
        }),
        open.after_all(ends) == (RetryOpen {
            attempt: (open.attempt + open.waits(ends)) as usize,
            ..open
        }),
    decreases ends.len(),
{
    if ends.len() > 0 {
        law_retries_are_bounded(open, ends.drop_last());
    }
}

/// A connection that is refused every time is tried again exactly as often as the
/// retries allow, each time after a wait; then the error is returned.
pub proof fn law_refusals_use_up_the_retries(open: RetryOpen, ends: Seq<Attempt>, last: Attempt)
    requires
        open.attempt + ends.len() <= open.max_attempts,
        forall|i: int|
            0 <= i < ends.len() ==> ((#[trigger] ends[i]) matches Attempt::Io(kind)
                && kind.retriable()),
        last matches Attempt::Io(kind) && kind.retriable(),
    ensures
        open.waits(ends) == ends.len(),
        open.after_all(ends).next(last) == (if open.attempt + ends.len()
            < open.max_attempts {
            Retry::Sleep(open.retry_timeout)
        } else {
            Retry::Return
        }),
    decreases ends.len(),
{
    law_retries_are_bounded(open, ends);
    if ends.len() > 0 {
        let earlier = ends.drop_last();
        assert forall|i: int| 0 <= i < earlier.len() implies ((#[trigger] earlier[i])
            matches Attempt::Io(kind) && kind.retriable()) by {
            assert(ends[i] matches Attempt::Io(kind) && kind.retriable());
        }
        assert(ends[ends.len() - 1] matches Attempt::Io(kind) && kind.retriable());
        law_refusals_use_up_the_retries(open, earlier, ends.last());
    }
}

/// The error of a sweep is the first, in the order in which the opens were polled.
pub proof fn law_the_first_error_counts<E>(polls: Seq<OpenPoll<E>>, i: int)
    requires
        0 <= i < polls.len(),
        polls[i].error() is Some,
        forall|j: int| 0 <= j < i ==> (#[trigger] polls[j]).error() is None,
    ensures
        first_error(polls) == polls[i].error(),
    decreases polls.len(),
{
    if i < polls.len() - 1 {
        let earlier = polls.drop_last();
        assert(forall|j: int| 0 <= j < i ==> (#[trigger] earlier[j]) == polls[j]);
        law_the_first_error_counts(earlier, i);
    } else {
        lemma_no_error(polls.drop_last());
    }
}

/// Where no open failed there is no error.
proof fn lemma_no_error<E>(polls: Seq<OpenPoll<E>>)
    requires
        forall|j: int| 0 <= j < polls.len() ==> (#[trigger] polls[j]).error() is None,
    ensures
        first_error(polls) is None,
    decreases polls.len(),
{
    if polls.len() > 0 {
        let earlier = polls.drop_last();
        assert(forall|j: int| 0 <= j < earlier.len() ==> (#[trigger] earlier[j]) == polls[j]);
        lemma_no_error(earlier);
    }
}

} // verus!
