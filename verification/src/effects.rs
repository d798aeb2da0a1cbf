//! What each operation is for, said of the numbers and queues of a pool themselves.

use vstd::prelude::*;

use crate::binding::{PoolBinding, PoolId};
use crate::client::{ClientHandle, HandleDrop, Transport};
use crate::host::TEXT_PROTOCOL_PORT;
use crate::inner::{
    less_one, open_limit, parks_view, woken_tasks, wrapping_more, InnerView,
};
use crate::laws::{law_what_wakers_put_back_is_woken, obtained, requeued};
use crate::model::{errors, first_error, later_errors, lemma_polled_frame, parked, OpenPoll};
use crate::model::PoolView;
use crate::options::{Delay, IntoOptions, Options, OptionsSource};
use crate::pool::{
    described, fresh_pool, is_return, new_open, source_hosts, source_max, source_min,
    source_retry, swept_error, Returned,
};
use crate::retry::{Attempt, IoErrorKind, Retry, RetryOpen};
use crate::text::{decimal, fields_view, listed, structure};

verus! {

/// The limit on opens is the lesser of the pool's maximum and four.
pub proof fn law_the_limit_on_opens(max: nat)
    ensures
        open_limit(max) <= max,
        open_limit(max) <= 4,
        open_limit(max) == max || open_limit(max) == 4,
{
}

/// A larger pool never has a lower limit on opens, and any pool may open something.
pub proof fn law_the_limit_on_opens_grows(smaller: nat, larger: nat)
    requires
        smaller <= larger,
    ensures
        open_limit(smaller) <= open_limit(larger),
        0 < smaller ==> 0 < open_limit(smaller),
{
}

/// Counting down stops at zero; counting up starts anew past the greatest `usize`.
pub proof fn law_counting(count: nat)
    ensures
        count > 0 ==> less_one(count) + 1 == count,
        less_one(0) == 0,
        count < usize::MAX ==> wrapping_more(count) == count + 1,
        wrapping_more(usize::MAX as nat) == 0,
{
}

/// A slot is taken exactly where fewer than the maximum are taken, and an open is counted
/// in exactly where fewer than the limit are under way; nothing else changes.
pub proof fn law_reserving(inner: InnerView, max: nat)
    ensures
        ({
            let after = inner.conn_reserved(max);
            &&& after == InnerView { conn_slots: after.conn_slots, ..inner }
            &&& inner.conn_slots < max ==> after.conn_slots == inner.conn_slots + 1
            &&& inner.conn_slots >= max ==> after.conn_slots == inner.conn_slots
        }),
        ({
            let after = inner.pending_open_reserved(max);
            &&& after == InnerView { pending_opens: after.pending_opens, ..inner }
            &&& inner.pending_opens < max ==> after.pending_opens == inner.pending_opens + 1
            &&& inner.pending_opens >= max ==> after.pending_opens == inner.pending_opens
        }),
{
}

/// Freeing a slot, or counting an open out, takes one off its counter, unless that is
/// zero; nothing else changes.
pub proof fn law_releasing(inner: InnerView)
    ensures
        ({
            let after = inner.conn_slot_released();
            &&& after == InnerView { conn_slots: after.conn_slots, ..inner }
            &&& inner.conn_slots > 0 ==> after.conn_slots + 1 == inner.conn_slots
            &&& inner.conn_slots == 0 ==> after.conn_slots == 0
        }),
        ({
            let after = inner.pending_open_released();
            &&& after == InnerView { pending_opens: after.pending_opens, ..inner }
            &&& inner.pending_opens > 0 ==> after.pending_opens + 1 == inner.pending_opens
            &&& inner.pending_opens == 0 ==> after.pending_opens == 0
        }),
{
}

/// A pool in another state is the same pool otherwise.
pub proof fn law_a_pool_keeps_its_settings(pool: PoolView, inner: InnerView)
    ensures
        pool.with(inner).inner == inner,
        pool.with(inner).id == pool.id,
        pool.with(inner).options == pool.options,
        pool.with(inner).min == pool.min,
        pool.with(inner).max == pool.max,
        pool.limit() <= pool.max,
        pool.limit() <= 4,
        pool.limit() == pool.max || pool.limit() == 4,
{
}

/// A task is made to wait only where a limit is reached: one more connection may be opened
/// exactly where fewer than the maximum are counted, and fewer opens than four and than
/// the maximum are under way. A task need not wait where that is so, or where a client is
/// idle.
pub proof fn law_waiting_is_for_the_limits(pool: PoolView)
    ensures
        pool.can_open() <==> pool.inner.conn_slots < pool.max && pool.inner.pending_opens < 4
            && pool.inner.pending_opens < pool.max,
        pool.available() <==> pool.inner.idle.len() > 0 || (pool.inner.conn_slots < pool.max
            && pool.inner.pending_opens < 4 && pool.inner.pending_opens < pool.max),
        pool.inner.pending_opens == 0 && pool.inner.conn_slots < pool.max ==> pool.can_open(),
        pool.inner.conn_slots >= pool.max ==> !pool.can_open(),
{
}

/// An open that is started waits behind the others, and it and its connection are counted.
pub proof fn law_an_open_is_counted(pool: PoolView, ticket: u64)
    ensures
        ({
            let after = pool.opened(ticket);
            &&& after == PoolView { inner: after.inner, ..pool }
            &&& after.inner == InnerView {
                new: after.inner.new,
                conn_slots: after.inner.conn_slots,
                pending_opens: after.inner.pending_opens,
                ..pool.inner
            }
            &&& after.inner.new.len() == pool.inner.new.len() + 1
            &&& after.inner.new.drop_last() == pool.inner.new
            &&& after.inner.new.last() == ticket
            &&& after.inner.conn_slots == pool.inner.conn_slots + 1
            &&& after.inner.pending_opens == pool.inner.pending_opens + 1
        }),
{
}

/// The pool after each of `clients` in turn was opened, became idle and was taken.
pub open spec fn grown(pool: PoolView, clients: Seq<ClientHandle>) -> PoolView
    decreases clients.len(),
{
    if clients.len() == 0 {
        pool
    } else {
        let before = grown(pool, clients.drop_last());
        before.opened(0).polling().settled(
            0,
            OpenPoll::<()>::Ready(Ok(clients.last())),
        ).taken()
    }
}

/// A pool can grow until its maximum: as long as fewer connections are counted, and none
/// is idle or being opened, one more may be opened, and its user gets it.
pub proof fn law_a_pool_grows_to_its_maximum(pool: PoolView, clients: Seq<ClientHandle>)
    requires
        pool.accounted(),
        pool.inner.idle.len() == 0,
        pool.inner.pending_opens == 0,
        pool.inner.conn_slots + clients.len() <= pool.max,
    ensures
        grown(pool, clients).accounted(),
        grown(pool, clients).max == pool.max,
        grown(pool, clients).inner.conn_slots == pool.inner.conn_slots + clients.len(),
        grown(pool, clients).inner.ongoing == pool.inner.ongoing + clients.len(),
        grown(pool, clients).inner.idle.len() == 0,
        grown(pool, clients).inner.pending_opens == 0,
        grown(pool, clients).can_open() <==> pool.inner.conn_slots + clients.len() < pool.max,
    decreases clients.len(),
{
    if clients.len() > 0 {
        let before = grown(pool, clients.drop_last());
        law_a_pool_grows_to_its_maximum(pool, clients.drop_last());
        let opened = before.opened(0);
        let settled = opened.polling().settled(0, OpenPoll::<()>::Ready(Ok(clients.last())));
        assert(opened.accounted());
        assert(opened.polling().accounted());
        assert(settled.accounted());
    }
}

/// A client is handed out as it was, but attached to the pool, marked as used, and with its
/// transport marked as outside of the pool.
pub proof fn law_a_leased_client(pool: PoolView, client: ClientHandle)
    ensures
        ({
            let leased = pool.leased(client);
            &&& leased.pool == PoolBinding::Attached(pool.id)
            &&& leased.used
            &&& leased.context == client.context
            &&& leased.inner is Some <==> client.inner is Some
            &&& client.inner is Some ==> leased.inner->0 == Transport {
                stream: client.inner->0.stream,
                inside: false,
            }
        }),
{
}

/// A client lies in the pool as it was given back, but bound to no pool, and with its
/// transport marked as inside.
pub proof fn law_a_parked_client(client: ClientHandle)
    ensures
        parked(client).pool == PoolBinding::Unbound,
        parked(client).used == client.used,
        parked(client).context == client.context,
        parked(client).inner is Some <==> client.inner is Some,
        client.inner is Some ==> parked(client).inner->0 == (Transport {
            stream: client.inner->0.stream,
            inside: true,
        }),
{
}

/// Marking a transport changes that mark alone.
pub proof fn law_marking_a_transport(client: ClientHandle, value: bool)
    ensures
        ({
            let marked = client.with_inside(value);
            &&& marked == ClientHandle { inner: marked.inner, ..client }
            &&& marked.inner is Some <==> client.inner is Some
            &&& client.inner is Some ==> marked.inner->0.inside == value
                && marked.inner->0.stream == client.inner->0.stream
        }),
{
}

/// The idle client that is handed out is the one in front, and it is counted as in use.
pub proof fn law_the_longest_idle_is_taken(pool: PoolView)
    requires
        pool.inner.idle.len() > 0,
    ensures
        ({
            let after = pool.taken();
            &&& after == PoolView { inner: after.inner, ..pool }
            &&& after.inner == InnerView {
                idle: after.inner.idle,
                ongoing: after.inner.ongoing,
                ..pool.inner
            }
            &&& pool.inner.idle == seq![pool.inner.idle[0]] + after.inner.idle
            &&& pool.inner.ongoing < usize::MAX ==> after.inner.ongoing == pool.inner.ongoing + 1
            &&& pool.inner.ongoing == usize::MAX ==> after.inner.ongoing == 0
        }),
{
}

/// Handing out an address counts it, and does nothing else.
pub proof fn law_an_address_is_counted(pool: PoolView)
    ensures
        ({
            let after = pool.addressed();
            &&& after == PoolView { inner: after.inner, ..pool }
            &&& after.inner == InnerView {
                connections_num: after.inner.connections_num,
                ..pool.inner
            }
            &&& pool.inner.connections_num < usize::MAX ==> after.inner.connections_num
                == pool.inner.connections_num + 1
            &&& pool.inner.connections_num == usize::MAX ==> after.inner.connections_num == 0
        }),
{
}

/// Tasks wait in the order in which they registered: a task registers behind those that
/// wait, the one in front is woken first, and when all were woken none waits.
pub proof fn law_tasks_wait_in_order(pool: PoolView, task: u64)
    ensures
        ({
            let after = pool.registered(task);
            &&& after == PoolView { inner: after.inner, ..pool }
            &&& after.inner == InnerView { tasks: after.inner.tasks, ..pool.inner }
            &&& after.inner.tasks == pool.inner.tasks + seq![task]
        }),
        ({
            let after = pool.waking();
            &&& after == PoolView { inner: after.inner, ..pool }
            &&& after.inner == InnerView { tasks: after.inner.tasks, ..pool.inner }
            &&& pool.inner.tasks.len() > 0 ==> pool.inner.tasks == seq![pool.inner.tasks[0]]
                + after.inner.tasks
        }),
        ({
            let after = pool.awake();
            &&& after == PoolView { inner: after.inner, ..pool }
            &&& after.inner == InnerView { tasks: after.inner.tasks, ..pool.inner }
            &&& after.inner.tasks.len() == 0
        }),
{
    assert(pool.registered(task).inner.tasks == pool.inner.tasks + seq![task]);
    if pool.inner.tasks.len() > 0 {
        assert(pool.inner.tasks == seq![pool.inner.tasks[0]] + pool.waking().inner.tasks);
    }
}

/// Whether a client that is given back is kept rests on these things alone: that it is
/// attached, that it has a transport, that fewer clients are idle than the pool keeps, and
/// that there is room. Whoever waits, and whether it is marked as used, does not matter.
pub proof fn law_what_is_kept(pool: PoolView, client: ClientHandle)
    ensures
        pool.wants(client) <==> client.pool is Attached && client.inner is Some
            && pool.inner.idle.len() < pool.min,
        pool.keeps(client) <==> client.pool is Attached && client.inner is Some
            && pool.inner.idle.len() < pool.min && pool.inner.idle.len() < pool.inner.idle_room,
        pool.wakes_on_return() <==> pool.inner.ongoing > 0,
{
}

/// Two pools that agree on how many clients are idle, kept and have room, decide alike of
/// two clients that are both attached or not, and both have a transport or not.
pub proof fn law_keeping_rests_on_nothing_else(
    pool: PoolView,
    other_pool: PoolView,
    client: ClientHandle,
    other: ClientHandle,
)
    requires
        pool.inner.idle.len() == other_pool.inner.idle.len(),
        pool.inner.idle_room == other_pool.inner.idle_room,
        pool.min == other_pool.min,
        client.pool is Attached <==> other.pool is Attached,
        client.inner is Some <==> other.inner is Some,
    ensures
        pool.keeps(client) == other_pool.keeps(other),
        pool.wants(client) == other_pool.wants(other),
{
}

/// Giving a client back: where no client is in use nothing changes. Else one fewer is in
/// use; a client that is kept is idle, behind the others, and its slot stays taken; for any
/// other the idle ones stay and a slot is free. The tasks that wait still wait to be woken.
pub proof fn law_giving_back(pool: PoolView, client: ClientHandle)
    ensures
        ({
            let after = pool.returned(client);
            let kept = client.pool is Attached && client.inner is Some && pool.inner.idle.len()
                < pool.min && pool.inner.idle.len() < pool.inner.idle_room;
            &&& pool.inner.ongoing == 0 ==> after == pool
            &&& after == PoolView { inner: after.inner, ..pool }
            &&& after.inner == InnerView {
                idle: after.inner.idle,
                ongoing: after.inner.ongoing,
                conn_slots: after.inner.conn_slots,
                ..pool.inner
            }
            &&& pool.inner.ongoing > 0 ==> after.inner.ongoing + 1 == pool.inner.ongoing
            &&& pool.inner.ongoing > 0 && kept ==> {
                &&& after.inner.idle.len() == pool.inner.idle.len() + 1
                &&& after.inner.idle.drop_last() == pool.inner.idle
                &&& after.inner.idle.last() == ClientHandle {
                    inner: Some(Transport { stream: client.inner->0.stream, inside: true }),
                    context: client.context,
                    pool: PoolBinding::Unbound,
                    used: client.used,
                }
                &&& after.inner.conn_slots == pool.inner.conn_slots
            }
            &&& pool.inner.ongoing > 0 && !kept ==> {
                &&& after.inner.idle == pool.inner.idle
                &&& pool.inner.conn_slots > 0 ==> after.inner.conn_slots + 1
                    == pool.inner.conn_slots
                &&& pool.inner.conn_slots == 0 ==> after.inner.conn_slots == 0
            }
        }),
{
}

/// Losing a connection: where none is in use nothing changes; else one fewer is in use and
/// a slot is free.
pub proof fn law_losing_a_connection(pool: PoolView)
    ensures
        ({
            let after = pool.released();
            &&& pool.inner.ongoing == 0 ==> after == pool
            &&& after == PoolView { inner: after.inner, ..pool }
            &&& after.inner == InnerView {
                ongoing: after.inner.ongoing,
                conn_slots: after.inner.conn_slots,
                ..pool.inner
            }
            &&& pool.inner.ongoing > 0 ==> after.inner.ongoing + 1 == pool.inner.ongoing
            &&& pool.inner.ongoing > 0 && pool.inner.conn_slots > 0 ==> after.inner.conn_slots + 1
                == pool.inner.conn_slots
        }),
{
}

/// What a pool says of a client that is given back is what becomes of it, and the client to
/// close is the one that was given.
pub proof fn law_what_is_said_of_a_return(
    pool: PoolView,
    client: ClientHandle,
    returned: Returned,
)
    requires
        is_return(pool, client, returned),
    ensures
        ({
            let wanted = client.pool is Attached && client.inner is Some && pool.inner.idle.len()
                < pool.min;
            let room = pool.inner.idle.len() < pool.inner.idle_room;
            &&& returned is NotOngoing <==> pool.inner.ongoing == 0
            &&& returned is Kept <==> pool.inner.ongoing > 0 && wanted && room
            &&& returned is Refused <==> pool.inner.ongoing > 0 && wanted && !room
            &&& returned is Close <==> pool.inner.ongoing > 0 && !wanted
            &&& match returned {
                Returned::NotOngoing(closed) => closed == parked(client),
                Returned::Refused(closed) => closed == parked(client),
                Returned::Close(closed) => closed == parked(client),
                Returned::Kept => true,
            }
        }),
{
}

/// What becomes of a handle that goes out of scope: nothing without a transport; its
/// transport is closed where it is bound to no pool, or was never taken from one; else it
/// goes back as it is, but no longer marked as used.
pub proof fn law_a_handle_goes_out_of_scope(handle: ClientHandle)
    ensures
        handle.inner is None <==> handle.drop_action() is Nothing,
        handle.inner is Some && handle.pool is Unbound ==> handle.drop_action()
            == HandleDrop::Close(handle.inner->0),
        handle.inner is Some && handle.pool !is Unbound && !handle.used ==> handle.drop_action()
            == HandleDrop::CloseUnused(handle.inner->0),
        handle.inner is Some && handle.pool !is Unbound && handle.used ==> handle.drop_action()
            == HandleDrop::GiveBack(
            (ClientHandle {
                inner: handle.inner,
                context: handle.context,
                pool: handle.pool,
                used: false,
            }),
        ),
{
}

/// A handle that is attached, connected and used, and goes out of scope while fewer clients
/// are idle than the pool keeps and there is room, is kept, whoever waits: it is idle,
/// behind the others, one fewer client is in use, and the slot stays taken. Where as many
/// are idle as the pool keeps, or it was detached, it is not, and the slot is free.
pub proof fn law_a_dropped_handle_is_kept_or_frees_its_slot(pool: PoolView, handle: ClientHandle)
    requires
        handle.pool == PoolBinding::Attached(pool.id) || handle.pool == PoolBinding::Detached(
            pool.id,
        ),
        handle.inner is Some,
        handle.used,
        pool.inner.ongoing > 0,
    ensures
        handle.drop_action() is GiveBack,
        ({
            let after = pool.returned(handle.drop_action()->GiveBack_0);
            &&& after.inner.ongoing + 1 == pool.inner.ongoing
            &&& after.inner.tasks == pool.inner.tasks
            &&& if handle.pool is Attached && pool.inner.idle.len() < pool.min
                && pool.inner.idle.len() < pool.inner.idle_room {
                &&& after.inner.idle.len() == pool.inner.idle.len() + 1
                &&& after.inner.idle.drop_last() == pool.inner.idle
                &&& after.inner.idle.last().inner == Some(
                    Transport { stream: handle.inner->0.stream, inside: true },
                )
                &&& after.inner.idle.last().context == handle.context
                &&& after.inner.idle.last().pool == PoolBinding::Unbound
                &&& !after.inner.idle.last().used
                &&& after.inner.conn_slots == pool.inner.conn_slots
            } else {
                &&& after.inner.idle == pool.inner.idle
                &&& pool.inner.conn_slots > 0 ==> after.inner.conn_slots + 1
                    == pool.inner.conn_slots
            }
        }),
        forall|returned: Returned| #[trigger]
            is_return(pool, handle.drop_action()->GiveBack_0, returned) ==> (returned is Kept
                <==> handle.pool is Attached && pool.inner.idle.len() < pool.min
                && pool.inner.idle.len() < pool.inner.idle_room),
{
}

/// While the open that has waited longest is polled, it does not wait, but is counted.
pub proof fn law_the_longest_waiting_is_polled(pool: PoolView)
    requires
        pool.inner.new.len() > 0,
    ensures
        ({
            let after = pool.polling();
            &&& after == PoolView { inner: after.inner, ..pool }
            &&& after.inner == InnerView { new: after.inner.new, ..pool.inner }
            &&& pool.inner.new == seq![pool.inner.new[0]] + after.inner.new
        }),
{
}

/// An open that was polled: with a client it is counted out, and the client is idle behind
/// the others, or, without room, its slot is free. With an error it is counted out and its
/// slot is free. Where it needs more time it waits again behind the others, or, without
/// room, is counted out and its slot is free. The tasks that wait are woken unless it waits
/// again.
pub proof fn law_an_open_that_was_polled<E>(pool: PoolView, ticket: u64, polled: OpenPoll<E>)
    ensures
        ({
            let after = pool.settled(ticket, polled);
            let got = polled is Ready && polled->0 is Ok;
            let stays_idle = got && pool.inner.idle.len() < pool.inner.idle_room;
            let waits_again = polled is Pending && pool.inner.new.len() < pool.inner.new_room;
            &&& after == PoolView { inner: after.inner, ..pool }
            &&& after.inner == InnerView {
                new: after.inner.new,
                idle: after.inner.idle,
                conn_slots: after.inner.conn_slots,
                pending_opens: after.inner.pending_opens,
                ..pool.inner
            }
            &&& stays_idle ==> after.inner.idle == pool.inner.idle + seq![(polled->0)->Ok_0]
            &&& !stays_idle ==> after.inner.idle == pool.inner.idle
            &&& waits_again ==> after.inner.new == pool.inner.new + seq![ticket]
            &&& !waits_again ==> after.inner.new == pool.inner.new
            &&& waits_again ==> after.inner.pending_opens == pool.inner.pending_opens
            &&& !waits_again && pool.inner.pending_opens > 0 ==> after.inner.pending_opens + 1
                == pool.inner.pending_opens
            &&& !waits_again && pool.inner.pending_opens == 0 ==> after.inner.pending_opens == 0
            &&& waits_again || stays_idle ==> after.inner.conn_slots == pool.inner.conn_slots
            &&& !waits_again && !stays_idle && pool.inner.conn_slots > 0
                ==> after.inner.conn_slots + 1 == pool.inner.conn_slots
            &&& !waits_again && !stays_idle && pool.inner.conn_slots == 0
                ==> after.inner.conn_slots == 0
            &&& pool.wakes(polled) <==> !waits_again
        }),
{
    if let OpenPoll::Ready(Ok(client)) = polled {
        assert(pool.inner.idle.push(client) == pool.inner.idle + seq![client]);
    }
    assert(pool.inner.new.push(ticket) == pool.inner.new + seq![ticket]);
}

/// A connection that is given up takes its open with it.
pub proof fn law_giving_up(pool: PoolView)
    ensures
        ({
            let after = pool.given_up();
            &&& after == PoolView { inner: after.inner, ..pool }
            &&& after.inner == InnerView {
                conn_slots: after.inner.conn_slots,
                pending_opens: after.inner.pending_opens,
                ..pool.inner
            }
            &&& pool.inner.pending_opens > 0 ==> after.inner.pending_opens + 1
                == pool.inner.pending_opens
            &&& pool.inner.conn_slots > 0 ==> after.inner.conn_slots + 1 == pool.inner.conn_slots
        }),
{
}

/// A sweep polls all the opens that wait, but no more than four.
pub proof fn law_how_many_are_polled(pool: PoolView)
    ensures
        pool.sweep_len() <= pool.inner.new.len(),
        pool.sweep_len() <= 4,
        pool.sweep_len() == pool.inner.new.len() || pool.sweep_len() == 4,
{
}

/// A sweep over nothing changes nothing and wakes nobody.
pub proof fn law_an_empty_sweep<E>(pool: PoolView)
    ensures
        pool.polled(Seq::<OpenPoll<E>>::empty()) == pool,
        pool.swept(Seq::<OpenPoll<E>>::empty()) == pool,
        !pool.polled_wakes(Seq::<OpenPoll<E>>::empty()),
        pool.refused_clients(Seq::<OpenPoll<E>>::empty()).len() == 0,
        pool.refused_opens(Seq::<OpenPoll<E>>::empty()).len() == 0,
{
}

/// The opens that waited when a sweep began, and were not polled yet, are in front.
proof fn lemma_those_in_front<E>(pool: PoolView, polls: Seq<OpenPoll<E>>)
    requires
        polls.len() <= pool.inner.new.len(),
    ensures
        pool.polled(polls).inner.new.len() >= pool.inner.new.len() - polls.len(),
        forall|i: int|
            0 <= i < pool.inner.new.len() - polls.len() ==> #[trigger] pool.polled(
                polls,
            ).inner.new[i] == pool.inner.new[i + polls.len()],
    decreases polls.len(),
{
    if polls.len() > 0 {
        let before = pool.polled(polls.drop_last());
        lemma_those_in_front(pool, polls.drop_last());
        let after = pool.polled(polls);
        assert forall|i: int| 0 <= i < pool.inner.new.len() - polls.len() implies #[trigger]
            after.inner.new[i] == pool.inner.new[i + polls.len()] by {
            assert(before.inner.new[i + 1] == pool.inner.new[i + 1 + polls.drop_last().len()]);
            assert(after.inner.new[i] == before.inner.new[i + 1]);
        }
    }
}

/// A sweep goes on with the next open that waited when it began: that open is taken out,
/// polled, and settled according to what it gave. What a sweep drops for want of room, it
/// reports.
pub proof fn law_a_sweep_goes_on<E>(pool: PoolView, polls: Seq<OpenPoll<E>>, next: OpenPoll<E>)
    requires
        polls.len() < pool.inner.new.len(),
    ensures
        ({
            let ticket = pool.inner.new[polls.len() as int];
            let before = pool.polled(polls).inner;
            let after = pool.polled(polls.push(next)).inner;
            let got = next is Ready && next->0 is Ok;
            let stays_idle = got && before.idle.len() < before.idle_room;
            let waits_again = next is Pending && before.new.len() <= before.new_room;
            &&& before.new.len() > 0
            &&& before.new[0] == ticket
            &&& pool.polled(polls.push(next)) == PoolView { inner: after, ..pool }
            &&& after == InnerView {
                new: after.new,
                idle: after.idle,
                conn_slots: after.conn_slots,
                pending_opens: after.pending_opens,
                ..before
            }
            &&& waits_again ==> after.new == before.new.skip(1) + seq![ticket]
            &&& !waits_again ==> after.new == before.new.skip(1)
            &&& stays_idle ==> after.idle == before.idle + seq![(next->0)->Ok_0]
            &&& !stays_idle ==> after.idle == before.idle
            &&& waits_again ==> after.pending_opens == before.pending_opens
            &&& !waits_again && before.pending_opens > 0 ==> after.pending_opens + 1
                == before.pending_opens
            &&& !waits_again && before.pending_opens == 0 ==> after.pending_opens == 0
            &&& waits_again || stays_idle ==> after.conn_slots == before.conn_slots
            &&& !waits_again && !stays_idle && before.conn_slots > 0 ==> after.conn_slots + 1
                == before.conn_slots
            &&& !waits_again && !stays_idle && before.conn_slots == 0 ==> after.conn_slots == 0
            &&& pool.polled_wakes(polls.push(next)) <==> pool.polled_wakes(polls) || !waits_again
            &&& pool.refused_clients(polls.push(next)) == pool.refused_clients(polls) + (if got
                && !stays_idle {
                seq![(next->0)->Ok_0]
            } else {
                Seq::empty()
            })
            &&& pool.refused_opens(polls.push(next)) == pool.refused_opens(polls) + (if next
                is Pending && !waits_again {
                seq![ticket]
            } else {
                Seq::empty()
            })
        }),
{
    let all = polls.push(next);
    assert(all.drop_last() == polls);
    assert(all.last() == next);
    lemma_those_in_front(pool, polls);
    lemma_polled_frame(pool, polls);
    let before = pool.polled(polls);
    assert(before.inner.new[0] == pool.inner.new[polls.len() as int]);
    law_an_open_that_was_polled(before.polling(), before.inner.new[0], next);
    assert(pool.polled(all) == before.polling().settled(before.inner.new[0], next));
    if next is Ready && next->0 is Ok {
        let client = (next->0)->Ok_0;
        assert(next == OpenPoll::<E>::Ready(Ok(client)));
    }
    assert(pool.refused_clients(polls) + Seq::<ClientHandle>::empty() =~= pool.refused_clients(
        polls,
    ));
    assert(pool.refused_opens(polls) + Seq::<u64>::empty() =~= pool.refused_opens(polls));
}

/// What the first `count` wakers put back.
pub open spec fn put_back(parks: Seq<Seq<u64>>, count: int) -> Seq<u64> {
    parks.take(
        if parks.len() < count {
            parks.len() as int
        } else {
            count
        },
    ).flatten()
}

/// Waking goes on for as long as some task waits, and no longer: before each wake-up there
/// are more tasks, those that waited and those put back by the wakers so far, than were
/// woken; at the end there are as many.
pub proof fn law_waking_ends_when_nobody_waits(tasks: Seq<u64>, parks: Seq<Seq<u64>>)
    ensures
        forall|k: int|
            0 <= k < woken_tasks(tasks, parks).len() ==> k < tasks.len() + (#[trigger] put_back(
                parks,
                k,
            )).len(),
        woken_tasks(tasks, parks) == tasks + put_back(
            parks,
            woken_tasks(tasks, parks).len() as int,
        ),
    decreases parks.len(),
{
    let woken = woken_tasks(tasks, parks);
    law_what_wakers_put_back_is_woken(tasks, parks);
    if tasks.len() > 0 && parks.len() > 0 {
        let rest = tasks.skip(1) + parks[0];
        law_waking_ends_when_nobody_waits(rest, parks.skip(1));
        assert forall|k: int| 0 <= k < woken.len() implies k < tasks.len() + (#[trigger] put_back(
            parks,
            k,
        )).len() by {
            if k > 0 {
                let count = if parks.len() < k {
                    parks.len() as int
                } else {
                    k
                };
                let used = parks.take(count);
                assert(used.first() == parks[0]);
                assert(used.drop_first() =~= parks.skip(1).take(count - 1));
                assert(put_back(parks, k) == parks[0] + put_back(parks.skip(1), k - 1));
                assert(k - 1 < rest.len() + put_back(parks.skip(1), k - 1).len());
            }
        }
    }
}

/// At the end of a sweep the tasks are woken or not: where they are, it is all that waited, in
/// their order, and then all that the wakers put back, for as long as some task waits and no
/// longer, and then no task waits; where they are not, nobody is woken and all still wait.
pub proof fn law_the_end_of_a_sweep<E>(
    pool: PoolView,
    polls: Seq<OpenPoll<E>>,
    parks: Seq<Seq<u64>>,
)
    ensures
        ({
            let woken = pool.swept_tasks(polls, parks);
            let left = pool.swept(polls).inner.tasks;
            &&& pool.polled_wakes(polls) ==> {
                &&& left.len() == 0
                &&& woken == pool.inner.tasks + put_back(parks, woken.len() as int)
                &&& forall|k: int|
                    0 <= k < woken.len() ==> k < pool.inner.tasks.len() + (#[trigger] put_back(
                        parks,
                        k,
                    )).len()
            }
            &&& !pool.polled_wakes(polls) ==> woken.len() == 0 && left == pool.inner.tasks
        }),
{
    lemma_polled_frame(pool, polls);
    law_waking_ends_when_nobody_waits(pool.inner.tasks, parks);
}

/// No task leaves the queue of those that wait without being woken: those that a sweep
/// wakes, and those that still wait after it, are at least all that waited before, in their
/// order, and exactly those where the wakers put nothing back.
pub proof fn law_no_task_leaves_unwoken<E>(
    pool: PoolView,
    polls: Seq<OpenPoll<E>>,
    parks: Seq<Seq<u64>>,
)
    ensures
        ({
            let either = pool.swept_tasks(polls, parks) + pool.swept(polls).inner.tasks;
            &&& either.len() >= pool.inner.tasks.len()
            &&& either.take(pool.inner.tasks.len() as int) == pool.inner.tasks
            &&& parks.len() == 0 ==> either == pool.inner.tasks
        }),
        pool.swept_tasks(polls, parks).len() == 0 || pool.swept(polls).inner.tasks.len() == 0,
        pool.swept(polls) == (PoolView {
            inner: InnerView { tasks: pool.swept(polls).inner.tasks, ..pool.polled(polls).inner },
            ..pool
        }),
{
    lemma_polled_frame(pool, polls);
    law_what_wakers_put_back_is_woken(pool.inner.tasks, parks);
    let either = pool.swept_tasks(polls, parks) + pool.swept(polls).inner.tasks;
    assert(either.take(pool.inner.tasks.len() as int) =~= pool.inner.tasks);
    if parks.len() == 0 {
        assert(either =~= pool.inner.tasks);
    }
}

/// A sweep in which an open ended wakes all the tasks that waited, in their order, and then
/// all that the wakers put back meanwhile; after it no task waits.
pub proof fn law_an_ended_open_leaves_nobody_waiting<E>(
    pool: PoolView,
    polls: Seq<OpenPoll<E>>,
    parks: Seq<Seq<u64>>,
    i: int,
)
    requires
        0 <= i < polls.len(),
        polls[i] is Ready,
    ensures
        pool.swept(polls).inner.tasks.len() == 0,
        parks.len() == 0 ==> pool.swept_tasks(polls, parks) == pool.inner.tasks,
        ({
            let woken = pool.swept_tasks(polls, parks);
            &&& woken.len() >= pool.inner.tasks.len()
            &&& woken == pool.inner.tasks + parks.take(
                if parks.len() < woken.len() {
                    parks.len() as int
                } else {
                    woken.len() as int
                },
            ).flatten()
        }),
{
    crate::laws::law_an_ended_open_wakes_all(pool, polls, i);
    lemma_polled_frame(pool, polls);
    law_what_wakers_put_back_is_woken(pool.inner.tasks, parks);
}

/// The lists of tasks are what they hold, in their order.
pub proof fn law_lists_of_tasks(parks: Seq<Vec<u64>>)
    ensures
        parks_view(parks).len() == parks.len(),
        forall|i: int| 0 <= i < parks.len() ==> (#[trigger] parks_view(parks)[i]) == parks[i]@,
{
}

/// The errors of two runs of polls, one after the other, are those of the first and then
/// those of the second; a single poll has an error exactly where it ended with one.
pub proof fn law_errors_in_order<E>(first: Seq<OpenPoll<E>>, second: Seq<OpenPoll<E>>)
    ensures
        errors(first + second) == errors(first) + errors(second),
    decreases second.len(),
{
    if second.len() == 0 {
        assert(first + second =~= first);
        assert(errors(first) + errors(second) =~= errors(first));
    } else {
        law_errors_in_order(first, second.drop_last());
        assert((first + second).drop_last() =~= first + second.drop_last());
        assert((first + second).last() == second.last());
        assert(errors(first + second) =~= errors(first) + errors(second));
    }
}

/// A poll has an error exactly where the open ended with one.
pub proof fn law_the_error_of_a_poll<E>(polled: OpenPoll<E>, error: E)
    ensures
        polled.error() == Some(error) <==> polled == OpenPoll::<E>::Ready(Err(error)),
        polled.error() is None <==> polled is Pending || (polled is Ready && polled->0 is Ok),
        polled == OpenPoll::<E>::Ready(Err(error)) ==> errors(seq![polled]) == seq![error],
        polled is Pending || (polled is Ready && polled->0 is Ok) ==> errors(seq![polled]).len()
            == 0,
{
    assert(seq![polled].drop_last() =~= Seq::<OpenPoll<E>>::empty());
    assert(errors(seq![polled].drop_last()).len() == 0);
    if polled == OpenPoll::<E>::Ready(Err(error)) {
        assert(errors(seq![polled]) =~= seq![error]);
    }
}

/// The first error and the later ones are all the errors, in their order.
pub proof fn law_first_and_later_errors<E>(polls: Seq<OpenPoll<E>>)
    ensures
        first_error(polls) is None <==> errors(polls).len() == 0,
        first_error(polls) is None ==> later_errors(polls).len() == 0,
        first_error(polls) is Some ==> errors(polls) == seq![first_error(polls)->0] + later_errors(
            polls,
        ),
{
    if errors(polls).len() > 0 {
        assert(errors(polls) =~= seq![errors(polls)[0]] + errors(polls).skip(1));
    }
}

/// A sweep fails exactly where it has an error, and with it.
pub proof fn law_how_a_sweep_fails<E>(swept: Result<(), E>, error: E)
    ensures
        swept_error(swept) is None <==> swept is Ok,
        swept_error(swept) == Some(error) <==> swept == Err::<(), E>(error),
{
}

/// The clients that two runs of polls obtained, one after the other, are those of the first
/// and then those of the second; a single poll obtains a client exactly where it ended with
/// one.
pub proof fn law_clients_in_order<E>(
    first: Seq<OpenPoll<E>>,
    second: Seq<OpenPoll<E>>,
    polled: OpenPoll<E>,
)
    ensures
        obtained(first + second) == obtained(first) + obtained(second),
        polled is Ready && polled->0 is Ok ==> obtained(seq![polled]) == seq![(polled->0)->Ok_0],
        polled is Pending || polled->0 is Err ==> obtained(seq![polled]).len() == 0,
    decreases second.len(),
{
    assert(seq![polled].drop_last() =~= Seq::<OpenPoll<E>>::empty());
    assert(obtained(seq![polled].drop_last()).len() == 0);
    if polled is Ready && polled->0 is Ok {
        assert(obtained(seq![polled]) =~= seq![(polled->0)->Ok_0]);
    }
    if second.len() == 0 {
        assert(first + second =~= first);
        assert(obtained(first) + obtained(second) =~= obtained(first));
    } else {
        law_clients_in_order(first, second.drop_last(), polled);
        assert((first + second).drop_last() =~= first + second.drop_last());
        assert((first + second).last() == second.last());
        assert(obtained(first + second) =~= obtained(first) + obtained(second));
    }
}

/// An open waits again, behind those that do, exactly where it needs more time.
pub proof fn law_waiting_again<E>(
    tickets: Seq<u64>,
    polls: Seq<OpenPoll<E>>,
    next: OpenPoll<E>,
)
    requires
        polls.len() < tickets.len(),
    ensures
        requeued(tickets, Seq::<OpenPoll<E>>::empty()).len() == 0,
        next is Ready ==> requeued(tickets, polls.push(next)) == requeued(tickets, polls),
        next is Pending ==> requeued(tickets, polls.push(next)) == requeued(tickets, polls)
            + seq![tickets[polls.len() as int]],
{
    assert(polls.push(next).drop_last() =~= polls);
}

/// However often it was tried again before, an attempt that gave a connection, or failed in
/// another way than by an I/O error, is returned, and an I/O error that is no refusal and
/// no broken pipe is followed by another attempt at once. Neither is counted.
pub proof fn law_what_is_never_waited_for(open: RetryOpen)
    ensures
        open.next(Attempt::Connected) == Retry::Return,
        open.next(Attempt::Failed) == Retry::Return,
        open.next(Attempt::Io(IoErrorKind::Other)) == Retry::Again,
        open.after(Attempt::Connected) == open,
        open.after(Attempt::Failed) == open,
        open.after(Attempt::Io(IoErrorKind::Other)) == open,
{
}

/// A refusal, or a broken pipe, is followed by another attempt after the wait that was set,
/// and counted, as long as fewer such attempts were made than are allowed; else it is
/// returned.
pub proof fn law_what_is_waited_for(open: RetryOpen, kind: IoErrorKind)
    requires
        kind == IoErrorKind::BrokenPipe || kind == IoErrorKind::ConnectionRefused,
    ensures
        open.attempt < open.max_attempts ==> open.next(Attempt::Io(kind)) == Retry::Sleep(
            open.retry_timeout,
        ),
        open.attempt < open.max_attempts ==> open.after(Attempt::Io(kind)).attempt == open.attempt
            + 1,
        open.attempt >= open.max_attempts ==> open.next(Attempt::Io(kind)) == Retry::Return,
        open.attempt >= open.max_attempts ==> open.after(Attempt::Io(kind)) == open,
        open.after(Attempt::Io(kind)) == (RetryOpen {
            attempt: open.after(Attempt::Io(kind)).attempt,
            ..open
        }),
{
}

/// The opening that a pool starts is for that pool, has not been tried yet, and has the
/// retries and the wait of the options, or none where there are no options.
pub proof fn law_a_new_opening(pool: PoolView)
    ensures
        new_open(pool).pool == Some(pool.id),
        new_open(pool).attempt == 0,
        pool.options matches OptionsSource::Loaded(options) ==> new_open(pool).max_attempts
            == options.send_retries && new_open(pool).retry_timeout == options.retry_timeout,
        pool.options is Invalid ==> new_open(pool).max_attempts == 0 && new_open(
            pool,
        ).retry_timeout == (Delay { secs: 0, nanos: 0 }),
        source_retry(pool.options) == (new_open(pool).max_attempts, new_open(pool).retry_timeout),
{
}

/// A new pool with options that were read: its sizes are theirs, its servers are their
/// address and then the further ones, in their order.
pub proof fn law_a_new_pool(id: PoolId, options: Options)
    ensures
        ({
            let pool = fresh_pool(id, OptionsSource::Loaded(options));
            &&& pool.id == id
            &&& pool.options == OptionsSource::Loaded(options)
            &&& pool.min == options.pool_min
            &&& pool.max == options.pool_max
            &&& pool.inner.hosts.len() == options.alt_hosts@.len() + 1
            &&& pool.inner.hosts[0] == options.addr
            &&& pool.inner.hosts.skip(1) == options.alt_hosts@
        }),
        source_min(OptionsSource::Loaded(options)) == options.pool_min,
        source_max(OptionsSource::Loaded(options)) == options.pool_max,
        source_hosts(OptionsSource::Loaded(options)) == seq![options.addr] + options.alt_hosts@,
{
    let hosts = fresh_pool(id, OptionsSource::Loaded(options)).inner.hosts;
    assert(hosts.skip(1) =~= options.alt_hosts@);
}

/// A new pool whose options could not be read keeps five idle connections, has ten at most,
/// and no server.
pub proof fn law_a_new_pool_without_options(id: PoolId)
    ensures
        fresh_pool(id, OptionsSource::Invalid).id == id,
        fresh_pool(id, OptionsSource::Invalid).options is Invalid,
        fresh_pool(id, OptionsSource::Invalid).min == 5,
        fresh_pool(id, OptionsSource::Invalid).max == 10,
        fresh_pool(id, OptionsSource::Invalid).inner.hosts.len() == 0,
{
}

/// A new pool has nothing in it and nothing counted, room for as many idle clients as it may
/// have connections, and room for as many opens as may be under way.
pub proof fn law_a_new_pool_is_empty(id: PoolId, source: OptionsSource)
    ensures
        ({
            let pool = fresh_pool(id, source);
            &&& pool.inner.new.len() == 0
            &&& pool.inner.idle.len() == 0
            &&& pool.inner.tasks.len() == 0
            &&& pool.inner.ongoing == 0
            &&& pool.inner.conn_slots == 0
            &&& pool.inner.pending_opens == 0
            &&& pool.inner.connections_num == 0
            &&& pool.inner.idle_room == pool.max
            &&& pool.inner.new_room <= pool.max && pool.inner.new_room <= 4
            &&& pool.inner.new_room == pool.max || pool.inner.new_room == 4
        }),
{
}

/// Options are a source that was read, and a source is its own source.
pub proof fn law_sources_of_options(options: Options, source: OptionsSource)
    ensures
        options.options_src() == OptionsSource::Loaded(options),
        source.options_src() == source,
{
}

/// A binding names the pool that it was made with, attached or detached, and none otherwise;
/// attaching and detaching turn the one kind into the other.
pub proof fn law_what_a_binding_names(pool: PoolId)
    ensures
        PoolBinding::Attached(pool).pool() == Some(pool),
        PoolBinding::Detached(pool).pool() == Some(pool),
        PoolBinding::Unbound.pool() is None,
        PoolBinding::Detached(pool).attached() == PoolBinding::Attached(pool),
        PoolBinding::Attached(pool).attached() == PoolBinding::Attached(pool),
        PoolBinding::Attached(pool).detached() == PoolBinding::Detached(pool),
        PoolBinding::Detached(pool).detached() == PoolBinding::Detached(pool),
        PoolBinding::Unbound.attached() == PoolBinding::Unbound,
        PoolBinding::Unbound.detached() == PoolBinding::Unbound,
{
}

/// The text protocol is spoken on port 8123.
pub proof fn law_the_port_of_the_text_protocol()
    ensures
        TEXT_PROTOCOL_PORT == 8123,
{
}

/// Decimal notation: the ten digits, and a digit more for each factor of ten.
pub proof fn law_decimal_notation(n: nat, d: nat)
    requires
        d < 10,
    ensures
        decimal(0) == seq!['0'],
        decimal(1) == seq!['1'],
        decimal(2) == seq!['2'],
        decimal(3) == seq!['3'],
        decimal(4) == seq!['4'],
        decimal(5) == seq!['5'],
        decimal(6) == seq!['6'],
        decimal(7) == seq!['7'],
        decimal(8) == seq!['8'],
        decimal(9) == seq!['9'],
        n > 0 ==> decimal(10 * n + d) == decimal(n) + decimal(d),
{
    if n > 0 {
        let m = 10 * n + d;
        assert(m / 10 == n && m % 10 == d);
        assert(decimal(m) =~= decimal(n) + decimal(d));
    }
}

/// A list of named numbers: each is its name, a colon and its number, and a comma stands
/// between two of them.
pub proof fn law_a_list_of_numbers(
    fields: Seq<(Seq<char>, nat)>,
    name: Seq<char>,
    value: nat,
)
    ensures
        listed(Seq::<(Seq<char>, nat)>::empty()).len() == 0,
        listed(seq![(name, value)]) == name + seq![':', ' '] + decimal(value),
        fields.len() > 0 ==> listed(fields.push((name, value))) == listed(fields) + seq![',', ' ']
            + listed(seq![(name, value)]),
{
    reveal_strlit(", ");
    reveal_strlit(": ");
    assert(", "@ =~= seq![',', ' ']);
    assert(": "@ =~= seq![':', ' ']);
    let one = seq![(name, value)];
    assert(one.drop_last() =~= Seq::<(Seq<char>, nat)>::empty());
    assert(listed(one.drop_last()).len() == 0);
    assert(listed(one) =~= name + seq![':', ' '] + decimal(value));
    if fields.len() > 0 {
        let more = fields.push((name, value));
        assert(more.drop_last() =~= fields);
        assert(listed(more) =~= listed(fields) + seq![',', ' '] + listed(one));
    }
}

/// A structure is its name and the list of its numbers in braces.
pub proof fn law_a_structure(name: Seq<char>, fields: Seq<(Seq<char>, nat)>)
    ensures
        structure(name, fields) == name + seq![' ', '{', ' '] + listed(fields) + seq![' ', '}'],
{
    reveal_strlit(" { ");
    reveal_strlit(" }");
    assert(" { "@ =~= seq![' ', '{', ' ']);
    assert(" }"@ =~= seq![' ', '}']);
}

/// The fields of a structure are what they hold, in their order.
pub proof fn law_fields_of_a_structure(fields: Seq<(&'static str, usize)>)
    ensures
        fields_view(fields).len() == fields.len(),
        forall|i: int|
            0 <= i < fields.len() ==> (#[trigger] fields_view(fields)[i]) == (
                fields[i].0@,
                fields[i].1 as nat,
            ),
{
}

/// A pool is described by its sizes, its queues and its counters.
pub proof fn law_how_a_pool_is_described(pool: PoolView)
    ensures
        described(pool).len() == 8,
        described(pool)[0] == ("min"@, pool.min),
        described(pool)[1] == ("max"@, pool.max),
        described(pool)[2] == ("new connections count"@, pool.inner.new.len()),
        described(pool)[3] == ("pending open connections count"@, pool.inner.pending_opens),
        described(pool)[4].0 == "pending open connections limit"@,
        described(pool)[4].1 <= pool.max && described(pool)[4].1 <= 4,
        described(pool)[4].1 == pool.max || described(pool)[4].1 == 4,
        described(pool)[5] == ("idle connections count"@, pool.inner.idle.len()),
        described(pool)[6] == ("tasks count"@, pool.inner.tasks.len()),
        described(pool)[7] == ("ongoing connections count"@, pool.inner.ongoing),
{
}

} // verus!
