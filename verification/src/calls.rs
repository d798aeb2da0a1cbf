//! What the calls do, said of what they are given, what they return, and the pool before
//! and after.

use vstd::prelude::*;

use crate::binding::{PoolBinding, PoolId};
use crate::client::{ClientHandle, HandleDrop, Transport};
use crate::effects::{
    law_an_ended_open_leaves_nobody_waiting, law_waking_ends_when_nobody_waits, put_back,
};
use crate::host::{parsed_url, Host, InvalidUrl};
use crate::inner::{parks_view, Inner, InnerView};
use crate::laws::{
    law_a_sweep_without_news_changes_nothing, law_sweep_in_full, obtained, requeued,
};
use crate::model::{errors, lemma_polled_frame, OpenPoll, PoolView};
use crate::options::{Delay, IntoOptions, InvalidOptions, Options, OptionsSource};
use crate::pool::{
    Dropped, GetHandle, Polled, Pool, PoolInfo, Returned, Settled, Step, Sweep, Swept,
};
use crate::retry::{Attempt, IoErrorKind, Retry, RetryOpen};

verus! {

/// The limit on opens is the lesser of the maximum and four.
pub proof fn law_call_of_pending_open_limit(max: usize, limit: usize)
    requires
        call_ensures(crate::inner::pending_open_limit, (max,), limit),
    ensures
        limit <= max,
        limit <= 4,
        limit == max || limit == 4,
{
}

/// A new state has nothing in it, room for `max` idle clients, and room for as many opens
/// as the lesser of `max` and four.
pub proof fn law_call_of_inner_new(max: usize, hosts: Vec<Host>, inner: Inner)
    requires
        call_ensures(Inner::new, (max, hosts), inner),
    ensures
        inner@.new.len() == 0,
        inner@.idle.len() == 0,
        inner@.tasks.len() == 0,
        inner@.ongoing == 0,
        inner@.conn_slots == 0,
        inner@.pending_opens == 0,
        inner@.connections_num == 0,
        inner@.hosts == hosts@,
        inner@.idle_room == max,
        inner@.new_room <= max && inner@.new_room <= 4,
        inner@.new_room == max || inner@.new_room == 4,
{
}

/// A slot is taken exactly where fewer than `max` are taken.
pub proof fn law_call_of_try_reserve_conn(inner: &mut Inner, max: usize, reserved: bool)
    requires
        call_ensures(Inner::try_reserve_conn, (inner, max), reserved),
    ensures
        reserved <==> old(inner)@.conn_slots < max,
        reserved ==> final(inner)@.conn_slots == old(inner)@.conn_slots + 1,
        !reserved ==> final(inner)@.conn_slots == old(inner)@.conn_slots,
        final(inner)@ == (InnerView { conn_slots: final(inner)@.conn_slots, ..old(inner)@ }),
{
}

/// An open is counted in exactly where fewer than `max` are under way.
pub proof fn law_call_of_try_reserve_pending_open(inner: &mut Inner, max: usize, reserved: bool)
    requires
        call_ensures(Inner::try_reserve_pending_open, (inner, max), reserved),
    ensures
        reserved <==> old(inner)@.pending_opens < max,
        reserved ==> final(inner)@.pending_opens == old(inner)@.pending_opens + 1,
        !reserved ==> final(inner)@.pending_opens == old(inner)@.pending_opens,
        final(inner)@ == (InnerView { pending_opens: final(inner)@.pending_opens, ..old(inner)@ }),
{
}

/// A slot is freed exactly where one is taken.
pub proof fn law_call_of_release_conn_slot(inner: &mut Inner, released: bool)
    requires
        call_ensures(Inner::release_conn_slot, (inner,), released),
    ensures
        released <==> old(inner)@.conn_slots > 0,
        released ==> final(inner)@.conn_slots + 1 == old(inner)@.conn_slots,
        !released ==> final(inner)@.conn_slots == 0,
        final(inner)@ == (InnerView { conn_slots: final(inner)@.conn_slots, ..old(inner)@ }),
{
}

/// An open is counted out exactly where one is under way.
pub proof fn law_call_of_release_pending_open(inner: &mut Inner, released: bool)
    requires
        call_ensures(Inner::release_pending_open, (inner,), released),
    ensures
        released <==> old(inner)@.pending_opens > 0,
        released ==> final(inner)@.pending_opens + 1 == old(inner)@.pending_opens,
        !released ==> final(inner)@.pending_opens == 0,
        final(inner)@ == (InnerView { pending_opens: final(inner)@.pending_opens, ..old(inner)@ }),
{
}

/// A slot that was reserved and then released is as it was.
pub proof fn law_release_after_reserve(
    first: &mut Inner,
    second: &mut Inner,
    max: usize,
    released: bool,
)
    requires
        call_ensures(Inner::try_reserve_conn, (first, max), true),
        call_ensures(Inner::release_conn_slot, (second,), released),
        final(first)@ == old(second)@,
    ensures
        released,
        final(second)@ == old(first)@,
{
}

/// A user's connection is counted out, and its slot freed, unless no user has one; exactly
/// then the tasks that wait are to be woken.
pub proof fn law_call_of_release_conn(inner: &mut Inner, wake: bool)
    requires
        call_ensures(Inner::release_conn, (inner,), wake),
    ensures
        wake <==> old(inner)@.ongoing > 0,
        !wake ==> final(inner)@ == old(inner)@,
        wake ==> final(inner)@.ongoing + 1 == old(inner)@.ongoing,
        wake && old(inner)@.conn_slots > 0 ==> final(inner)@.conn_slots + 1 == old(
            inner,
        )@.conn_slots,
        wake && old(inner)@.conn_slots == 0 ==> final(inner)@.conn_slots == 0,
        final(inner)@ == (InnerView {
            ongoing: final(inner)@.ongoing,
            conn_slots: final(inner)@.conn_slots,
            ..old(inner)@
        }),
{
}

/// The counters are told as they are.
pub proof fn law_calls_of_counters(inner: Inner, count: usize)
    ensures
        call_ensures(Inner::conn_count, (&inner,), count) ==> count == inner@.conn_slots,
        call_ensures(Inner::pending_open_count, (&inner,), count) ==> count
            == inner@.pending_opens,
        call_ensures(Inner::ongoing_count, (&inner,), count) ==> count == inner@.ongoing,
        call_ensures(Inner::new_len, (&inner,), count) ==> count == inner@.new.len(),
        call_ensures(Inner::idle_len, (&inner,), count) ==> count == inner@.idle.len(),
        call_ensures(Inner::tasks_len, (&inner,), count) ==> count == inner@.tasks.len(),
{
}

/// The task that is taken out to be woken is the one that has waited longest.
pub proof fn law_call_of_next_task(inner: &mut Inner, next: Option<u64>)
    requires
        call_ensures(Inner::next_task, (inner,), next),
    ensures
        next is None <==> old(inner)@.tasks.len() == 0,
        next is None ==> final(inner)@ == old(inner)@,
        next matches Some(task) ==> old(inner)@.tasks == seq![task] + final(inner)@.tasks,
        final(inner)@ == (InnerView { tasks: final(inner)@.tasks, ..old(inner)@ }),
{
    if next is Some {
        assert(old(inner)@.tasks == seq![next->0] + final(inner)@.tasks);
    }
}

/// All the tasks that wait are woken, in their order, and then all that the wakers put back
/// meanwhile, for as long as some task waits and no longer; then no task waits.
pub proof fn law_call_of_wake_tasks(inner: &mut Inner, parks: Vec<Vec<u64>>, woken: Vec<u64>)
    requires
        call_ensures(Inner::wake_tasks, (inner, parks), woken),
    ensures
        woken@ == old(inner)@.tasks + put_back(parks_view(parks@), woken@.len() as int),
        parks@.len() == 0 ==> woken@ == old(inner)@.tasks,
        forall|k: int|
            0 <= k < woken@.len() ==> k < old(inner)@.tasks.len() + (#[trigger] put_back(
                parks_view(parks@),
                k,
            )).len(),
        final(inner)@.tasks.len() == 0,
        final(inner)@ == (InnerView { tasks: final(inner)@.tasks, ..old(inner)@ }),
{
    law_waking_ends_when_nobody_waits(old(inner)@.tasks, parks_view(parks@));
}

/// Idle clients come out in the order in which they went in: the one that a push put behind
/// the others comes out first only where there was no other.
pub proof fn law_idle_clients_take_turns(
    first: &mut Inner,
    second: &mut Inner,
    client: ClientHandle,
    pushed: Result<(), ClientHandle>,
    popped: Option<ClientHandle>,
)
    requires
        call_ensures(Inner::push_idle, (first, client), pushed),
        call_ensures(Inner::pop_idle, (second,), popped),
        final(first)@ == old(second)@,
    ensures
        pushed is Ok <==> old(first)@.idle.len() < old(first)@.idle_room,
        pushed is Err ==> pushed->Err_0 == client && final(first)@ == old(first)@,
        pushed is Ok ==> final(first)@.idle == old(first)@.idle + seq![client],
        pushed is Ok ==> popped is Some,
        popped is Some <==> old(second)@.idle.len() > 0,
        popped is None ==> final(second)@ == old(second)@,
        popped matches Some(out) ==> old(second)@.idle == seq![out] + final(second)@.idle,
        pushed is Ok && old(first)@.idle.len() == 0 ==> popped == Some(client),
        pushed is Ok && old(first)@.idle.len() > 0 ==> popped == Some(old(first)@.idle[0]),
        final(first)@ == (InnerView { idle: final(first)@.idle, ..old(first)@ }),
        final(second)@ == (InnerView { idle: final(second)@.idle, ..old(second)@ }),
{
    if popped is Some {
        assert(old(second)@.idle == seq![popped->0] + final(second)@.idle);
    }
}

/// Opens come out to be polled in the order in which they went in.
pub proof fn law_opens_take_turns(
    first: &mut Inner,
    second: &mut Inner,
    ticket: u64,
    pushed: Result<(), u64>,
    popped: Option<u64>,
)
    requires
        call_ensures(Inner::push_new, (first, ticket), pushed),
        call_ensures(Inner::pop_new, (second,), popped),
        final(first)@ == old(second)@,
    ensures
        pushed is Ok <==> old(first)@.new.len() < old(first)@.new_room,
        pushed is Err ==> pushed->Err_0 == ticket && final(first)@ == old(first)@,
        pushed is Ok ==> final(first)@.new == old(first)@.new + seq![ticket],
        pushed is Ok ==> popped is Some,
        popped is Some <==> old(second)@.new.len() > 0,
        popped is None ==> final(second)@ == old(second)@,
        popped matches Some(out) ==> old(second)@.new == seq![out] + final(second)@.new,
        pushed is Ok && old(first)@.new.len() == 0 ==> popped == Some(ticket),
        pushed is Ok && old(first)@.new.len() > 0 ==> popped == Some(old(first)@.new[0]),
        final(first)@ == (InnerView { new: final(first)@.new, ..old(first)@ }),
        final(second)@ == (InnerView { new: final(second)@.new, ..old(second)@ }),
{
    if popped is Some {
        assert(old(second)@.new == seq![popped->0] + final(second)@.new);
    }
}

/// Tasks are woken in the order in which they registered.
pub proof fn law_tasks_take_turns(
    first: &mut Inner,
    second: &mut Inner,
    task: u64,
    next: Option<u64>,
)
    requires
        call_ensures(Inner::push_task, (first, task), ()),
        call_ensures(Inner::next_task, (second,), next),
        final(first)@ == old(second)@,
    ensures
        final(first)@.tasks == old(first)@.tasks + seq![task],
        old(first)@.tasks.len() == 0 ==> next == Some(task),
        old(first)@.tasks.len() > 0 ==> next == Some(old(first)@.tasks[0]),
        final(first)@ == (InnerView { tasks: final(first)@.tasks, ..old(first)@ }),
{
}

/// A text is read as an address exactly where it is a URL; the address tells the URL and
/// the port that the text was read as.
pub proof fn law_calls_of_host(text: &str, host: Host, url: &str, port: Option<u16>)
    requires
        call_ensures(Host::parse, (text,), Ok::<Host, InvalidUrl>(host)),
        call_ensures(Host::url, (&host,), url),
        call_ensures(Host::port, (&host,), port),
    ensures
        parsed_url(text@) == Some((url@, port)),
        !call_ensures(Host::parse, (text,), Err::<Host, InvalidUrl>(InvalidUrl)),
{
}

/// The port of the text protocol is named exactly where one of the addresses is on 8123.
pub proof fn law_call_of_names_text_port(hosts: &Vec<Host>, named: bool)
    requires
        call_ensures(crate::host::names_text_port, (hosts,), named),
    ensures
        named <==> exists|i: int|
            0 <= i < hosts@.len() && (#[trigger] hosts@[i]).spec_port() == Some(8123u16),
{
}

/// Options are had from a source exactly where they were read, and as they were read.
pub proof fn law_calls_of_options(
    source: OptionsSource,
    options: Options,
    read: Result<&Options, InvalidOptions>,
    made: OptionsSource,
    kept: OptionsSource,
)
    requires
        call_ensures(OptionsSource::get, (&source,), read),
        call_ensures(Options::into_options_src, (options,), made),
        call_ensures(OptionsSource::into_options_src, (source,), kept),
    ensures
        read is Ok <==> source is Loaded,
        read is Ok ==> OptionsSource::Loaded(*read->Ok_0) == source,
        made == OptionsSource::Loaded(options),
        kept == source,
{
}

/// What becomes of a client that goes out of scope; nothing is left in it.
pub proof fn law_call_of_on_drop(client: &mut ClientHandle, action: HandleDrop)
    requires
        call_ensures(ClientHandle::on_drop, (client,), action),
    ensures
        old(client).inner is None ==> action is Nothing,
        old(client).inner is Some && old(client).pool is Unbound ==> action == HandleDrop::Close(
            old(client).inner->0,
        ),
        old(client).inner is Some && old(client).pool !is Unbound && !old(client).used ==> action
            == HandleDrop::CloseUnused(old(client).inner->0),
        old(client).inner is Some && old(client).pool !is Unbound && old(client).used ==> action
            == HandleDrop::GiveBack(ClientHandle { used: false, ..*old(client) }),
        final(client).inner is None,
        final(client).pool is Unbound,
        final(client).context == old(client).context,
        final(client).used == old(client).used,
{
}

/// The marks of a client are set without changing anything else, and told as they are.
pub proof fn law_calls_of_marks(
    first: &mut ClientHandle,
    second: &mut ClientHandle,
    value: bool,
    client: ClientHandle,
    used: bool,
)
    requires
        call_ensures(ClientHandle::set_inside, (first, value), ()),
        call_ensures(ClientHandle::set_used, (second,), ()),
        call_ensures(ClientHandle::has_been_used, (&client,), used),
    ensures
        old(first).inner is Some <==> final(first).inner is Some,
        old(first).inner is Some ==> final(first).inner == Some(
            Transport { stream: old(first).inner->0.stream, inside: value },
        ),
        final(first).pool == old(first).pool,
        final(first).context == old(first).context,
        final(first).used == old(first).used,
        final(second).used,
        *final(second) == (ClientHandle { used: final(second).used, ..*old(second) }),
        used <==> client.used,
{
}

/// A binding is taken out whole.
pub proof fn law_call_of_take(binding: &mut PoolBinding, taken: PoolBinding)
    requires
        call_ensures(PoolBinding::take, (binding,), taken),
    ensures
        taken == *old(binding),
        *final(binding) is Unbound,
{
}

/// Whether a binding is attached, or names a pool.
pub proof fn law_calls_on_a_binding(binding: PoolBinding, answer: bool, copy: PoolBinding)
    ensures
        call_ensures(PoolBinding::is_attached, (&binding,), answer) ==> (answer <==> binding
            is Attached),
        call_ensures(PoolBinding::is_some, (&binding,), answer) ==> (answer <==> binding
            !is Unbound),
        call_ensures(PoolBinding::clone, (&binding,), copy) ==> copy == binding,
{
}

/// A binding becomes attached, or detached, to the pool that it names.
pub proof fn law_calls_of_attach_and_detach(
    first: &mut PoolBinding,
    second: &mut PoolBinding,
    pool: PoolId,
)
    requires
        *old(first) == PoolBinding::Detached(pool),
        call_ensures(PoolBinding::attach, (first,), ()),
        *old(second) == PoolBinding::Attached(pool),
        call_ensures(PoolBinding::detach, (second,), ()),
    ensures
        *final(first) == PoolBinding::Attached(pool),
        *final(second) == PoolBinding::Detached(pool),
{
}

/// After an attempt that gave a connection, or failed in another way than by an I/O error,
/// what it gave is returned; after an I/O error that is no refusal and no broken pipe it is
/// tried again at once; after a refusal or a broken pipe it is tried again after the wait
/// that was set, and counted, while fewer such attempts were made than are allowed. This is
/// so however often it was tried before.
pub proof fn law_call_of_retry_open(open: &mut RetryOpen, ended: Attempt, retry: Retry)
    requires
        call_ensures(RetryOpen::retry_open, (open, ended), retry),
    ensures
        ended is Connected || ended is Failed ==> retry is Return && *final(open) == *old(open),
        ended == Attempt::Io(IoErrorKind::Other) ==> retry is Again && *final(open) == *old(open),
        ended is Io && ended != Attempt::Io(IoErrorKind::Other) ==> {
            &&& old(open).attempt < old(open).max_attempts ==> retry == Retry::Sleep(
                old(open).retry_timeout,
            ) && final(open).attempt == old(open).attempt + 1
            &&& old(open).attempt >= old(open).max_attempts ==> retry is Return && *final(open)
                == *old(open)
        },
        final(open).pool == old(open).pool,
        final(open).max_attempts == old(open).max_attempts,
        final(open).retry_timeout == old(open).retry_timeout,
{
}

/// A new pool is empty, and has what its options say, or else keeps five connections and
/// has ten at most.
pub proof fn law_call_of_pool_new<O: IntoOptions>(id: PoolId, given: O, pool: Pool)
    requires
        call_ensures(Pool::new::<O>, (id, given), pool),
    ensures
        pool@.id == id,
        pool@.options == given.options_src(),
        given.options_src() matches OptionsSource::Loaded(options) ==> {
            &&& pool@.min == options.pool_min
            &&& pool@.max == options.pool_max
            &&& pool@.inner.hosts == seq![options.addr] + options.alt_hosts@
        },
        given.options_src() is Invalid ==> pool@.min == 5 && pool@.max == 10
            && pool@.inner.hosts.len() == 0,
        pool@.inner.new.len() == 0,
        pool@.inner.idle.len() == 0,
        pool@.inner.tasks.len() == 0,
        pool@.inner.ongoing == 0,
        pool@.inner.conn_slots == 0,
        pool@.inner.pending_opens == 0,
        pool@.inner.connections_num == 0,
        pool@.inner.idle_room == pool@.max,
        pool@.inner.new_room <= pool@.max && pool@.inner.new_room <= 4,
        pool@.inner.new_room == pool@.max || pool@.inner.new_room == 4,
{
}

/// What a pool tells of itself.
pub proof fn law_calls_that_tell(
    pool: Pool,
    info: PoolInfo,
    request: GetHandle,
    count: usize,
    limit: usize,
    named: bool,
    inner: &Inner,
)
    requires
        call_ensures(Pool::info, (&pool,), info),
        call_ensures(Pool::get_handle, (&pool,), request),
        call_ensures(Pool::pending_open_count, (&pool,), count),
        call_ensures(Pool::pending_open_limit, (&pool,), limit),
        call_ensures(Pool::names_text_port, (&pool,), named),
        call_ensures(Pool::inner, (&pool,), inner),
    ensures
        info.new_len == pool@.inner.new.len(),
        info.idle_len == pool@.inner.idle.len(),
        info.tasks_len == pool@.inner.tasks.len(),
        info.ongoing == pool@.inner.ongoing,
        request.pool == pool@.id,
        count == pool@.inner.pending_opens,
        limit <= pool@.max,
        limit <= 4,
        limit == pool@.max || limit == 4,
        named <==> exists|i: int|
            0 <= i < pool@.inner.hosts.len() && (#[trigger] pool@.inner.hosts[i]).spec_port()
                == Some(8123u16),
        inner@ == pool@.inner,
{
}

/// The client that has been idle longest is handed out, attached to the pool, marked as
/// used and as outside of it, and counted as in use; else nothing changes.
pub proof fn law_call_of_take_conn(pool: &mut Pool, taken: Option<ClientHandle>)
    requires
        call_ensures(Pool::take_conn, (pool,), taken),
    ensures
        taken is Some <==> old(pool)@.inner.idle.len() > 0,
        taken is None ==> final(pool)@ == old(pool)@,
        taken matches Some(client) ==> {
            let first = old(pool)@.inner.idle[0];
            &&& client.pool == PoolBinding::Attached(old(pool)@.id)
            &&& client.used
            &&& client.context == first.context
            &&& client.inner is Some <==> first.inner is Some
            &&& first.inner is Some ==> client.inner->0.stream == first.inner->0.stream
                && !client.inner->0.inside
            &&& old(pool)@.inner.idle == seq![first] + final(pool)@.inner.idle
            &&& old(pool)@.inner.ongoing < usize::MAX ==> final(pool)@.inner.ongoing == old(
                pool,
            )@.inner.ongoing + 1
        },
        final(pool)@ == (PoolView { inner: final(pool)@.inner, ..old(pool)@ }),
        final(pool)@.inner == (InnerView {
            idle: final(pool)@.inner.idle,
            ongoing: final(pool)@.inner.ongoing,
            ..old(pool)@.inner
        }),
{
    if taken is Some {
        assert(old(pool)@.inner.idle == seq![old(pool)@.inner.idle[0]] + final(pool)@.inner.idle);
    }
}

/// A client that is given back while some client is in use is kept exactly where it is
/// attached and connected, fewer clients are idle than the pool keeps, and there is room,
/// whoever waits and whatever its marks are. Kept, it is idle behind the others, bound to no
/// pool, and its slot stays taken; else a slot is free, and it is handed back to be closed.
/// Either way one fewer is in use. While none is in use nothing changes.
pub proof fn law_call_of_return_conn(pool: &mut Pool, client: ClientHandle, returned: Returned)
    requires
        call_ensures(Pool::return_conn, (pool, client), returned),
    ensures
        ({
            let before = old(pool)@.inner;
            let after = final(pool)@.inner;
            let lies = ClientHandle {
                inner: match client.inner {
                    Some(transport) => Some(Transport { stream: transport.stream, inside: true }),
                    None => None,
                },
                context: client.context,
                pool: PoolBinding::Unbound,
                used: client.used,
            };
            let wanted = client.pool is Attached && client.inner is Some && before.idle.len()
                < old(pool)@.min;
            let room = before.idle.len() < before.idle_room;
            &&& final(pool)@ == PoolView { inner: after, ..old(pool)@ }
            &&& if before.ongoing == 0 {
                &&& returned == Returned::NotOngoing(lies)
                &&& after == before
            } else {
                &&& after.ongoing + 1 == before.ongoing
                &&& after == InnerView {
                    idle: after.idle,
                    ongoing: after.ongoing,
                    conn_slots: after.conn_slots,
                    ..before
                }
                &&& if wanted && room {
                    &&& returned is Kept
                    &&& after.idle == before.idle + seq![lies]
                    &&& after.conn_slots == before.conn_slots
                } else {
                    &&& returned == if wanted {
                        Returned::Refused(lies)
                    } else {
                        Returned::Close(lies)
                    }
                    &&& after.idle == before.idle
                    &&& before.conn_slots > 0 ==> after.conn_slots + 1 == before.conn_slots
                    &&& before.conn_slots == 0 ==> after.conn_slots == 0
                }
            }
        }),
{
    if returned is Kept {
        let back = final(pool)@.inner.idle.last();
        assert(final(pool)@.inner.idle == old(pool)@.inner.idle + seq![back]);
    }
}

/// After a client was given back, the tasks that wait are to be woken unless none was in
/// use.
pub proof fn law_call_of_wakes(returned: Returned, wakes: bool)
    requires
        call_ensures(Returned::wakes, (&returned,), wakes),
    ensures
        wakes <==> returned is Kept || returned is Refused || returned is Close,
{
}

/// Through a binding a client is given back exactly where the binding names a pool.
pub proof fn law_call_of_return_through_a_binding(
    binding: PoolBinding,
    pool: &mut Pool,
    client: ClientHandle,
    returned: Option<Returned>,
)
    requires
        call_ensures(PoolBinding::return_conn, (binding, pool, client), returned),
    ensures
        returned is Some <==> binding !is Unbound,
        returned is None ==> final(pool)@ == old(pool)@,
        returned is Some && old(pool)@.inner.ongoing > 0 ==> final(pool)@.inner.ongoing + 1 == old(
            pool,
        )@.inner.ongoing,
        returned is Some ==> (returned->0 is Kept <==> old(pool)@.inner.ongoing > 0 && client.pool
            is Attached && client.inner is Some && old(pool)@.inner.idle.len() < old(pool)@.min
            && old(pool)@.inner.idle.len() < old(pool)@.inner.idle_room),
        returned is Some && old(pool)@.inner.ongoing > 0 && returned->0 !is Kept && old(
            pool,
        )@.inner.conn_slots > 0 ==> final(pool)@.inner.conn_slots + 1 == old(
            pool,
        )@.inner.conn_slots,
        final(pool)@.inner.tasks == old(pool)@.inner.tasks,
{
}

/// A handle without a transport, or bound to no pool, or never taken from one, is none of
/// the pool's concern when it goes out of scope.
pub proof fn law_a_handle_that_does_not_go_back(
    pool: &mut Pool,
    handle: ClientHandle,
    dropped: Dropped,
)
    requires
        call_ensures(Pool::drop_handle, (pool, handle), dropped),
        handle.inner is None || handle.pool is Unbound || !handle.used,
    ensures
        final(pool)@ == old(pool)@,
        handle.inner is None ==> dropped is Nothing,
        handle.inner is Some && handle.pool is Unbound ==> dropped == Dropped::Close(
            handle.inner->0,
        ),
        handle.inner is Some && handle.pool !is Unbound ==> dropped == Dropped::CloseUnused(
            handle.inner->0,
        ),
{
}

/// A connected handle that was taken from the pool goes back when it goes out of scope.
/// While some client is in use, it is kept exactly where it is attached, fewer clients are
/// idle than the pool keeps, and there is room, whoever waits: then it is idle behind the
/// others, not marked as used, and its slot stays taken; else a slot is free.
pub proof fn law_a_handle_that_goes_back(pool: &mut Pool, handle: ClientHandle, dropped: Dropped)
    requires
        call_ensures(Pool::drop_handle, (pool, handle), dropped),
        handle.inner is Some,
        handle.pool !is Unbound,
        handle.used,
    ensures
        dropped is Returned,
        ({
            let before = old(pool)@.inner;
            let after = final(pool)@.inner;
            let lies = ClientHandle {
                inner: Some(Transport { stream: handle.inner->0.stream, inside: true }),
                context: handle.context,
                pool: PoolBinding::Unbound,
                used: false,
            };
            let kept = handle.pool is Attached && before.idle.len() < old(pool)@.min
                && before.idle.len() < before.idle_room;
            &&& final(pool)@ == PoolView { inner: after, ..old(pool)@ }
            &&& if before.ongoing == 0 {
                &&& dropped->Returned_0 == Returned::NotOngoing(lies)
                &&& after == before
            } else {
                &&& after == InnerView {
                    idle: after.idle,
                    ongoing: after.ongoing,
                    conn_slots: after.conn_slots,
                    ..before
                }
                &&& after.ongoing + 1 == before.ongoing
                &&& dropped->Returned_0 is Kept <==> kept
                &&& kept ==> after.idle == before.idle + seq![lies] && after.conn_slots
                    == before.conn_slots
                &&& !kept ==> after.idle == before.idle
                &&& !kept && before.conn_slots > 0 ==> after.conn_slots + 1 == before.conn_slots
            }
        }),
{
    if dropped->Returned_0 is Kept {
        let back = final(pool)@.inner.idle.last();
        assert(final(pool)@.inner.idle == old(pool)@.inner.idle + seq![back]);
    }
}

/// The server that is handed out is the one at the number of addresses handed out before,
/// less all the whole rounds; the count goes up by one.
pub proof fn law_call_of_get_addr(pool: &mut Pool, addr: &Host, rounds: int, turn: int)
    requires
        call_ensures(Pool::get_addr, (pool,), addr),
        0 <= turn < old(pool)@.inner.hosts.len(),
        old(pool)@.inner.connections_num == rounds * old(pool)@.inner.hosts.len() + turn,
    ensures
        *addr == old(pool)@.inner.hosts[turn],
        old(pool)@.inner.connections_num < usize::MAX ==> final(pool)@.inner.connections_num
            == old(pool)@.inner.connections_num + 1,
        old(pool)@.inner.connections_num == usize::MAX ==> final(pool)@.inner.connections_num == 0,
        final(pool)@.inner == (InnerView {
            connections_num: final(pool)@.inner.connections_num,
            ..old(pool)@.inner
        }),
        final(pool)@ == (PoolView { inner: final(pool)@.inner, ..old(pool)@ }),
{
    vstd::arithmetic::div_mod::lemma_fundamental_div_mod_converse(
        old(pool)@.inner.connections_num as int,
        old(pool)@.inner.hosts.len() as int,
        rounds,
        turn,
    );
}

/// The servers take turns: after one server the next call hands out the next, and after the
/// last the first.
pub proof fn law_calls_of_get_addr_take_turns(
    first: &mut Pool,
    second: &mut Pool,
    one: &Host,
    other: &Host,
    rounds: int,
    turn: int,
)
    requires
        call_ensures(Pool::get_addr, (first,), one),
        call_ensures(Pool::get_addr, (second,), other),
        final(first)@ == old(second)@,
        0 <= turn < old(first)@.inner.hosts.len(),
        old(first)@.inner.connections_num == rounds * old(first)@.inner.hosts.len() + turn,
        old(first)@.inner.connections_num < usize::MAX,
    ensures
        *one == old(first)@.inner.hosts[turn],
        turn + 1 < old(first)@.inner.hosts.len() ==> *other == old(first)@.inner.hosts[turn + 1],
        turn + 1 == old(first)@.inner.hosts.len() ==> *other == old(first)@.inner.hosts[0],
{
    let all = old(first)@.inner.hosts.len() as int;
    law_call_of_get_addr(first, one, rounds, turn);
    if turn + 1 < all {
        law_call_of_get_addr(second, other, rounds, turn + 1);
    } else {
        assert((rounds + 1) * all == rounds * all + all) by (nonlinear_arith);
        law_call_of_get_addr(second, other, rounds + 1, 0);
    }
}

/// The opening that a pool starts is for that pool, was not tried yet, and is tried as often
/// as the options say, or once where there are none.
pub proof fn law_call_of_new_connection(pool: Pool, open: RetryOpen)
    requires
        call_ensures(Pool::new_connection, (&pool,), open),
    ensures
        open.pool == Some(pool@.id),
        open.attempt == 0,
        pool@.options matches OptionsSource::Loaded(options) ==> open.max_attempts
            == options.send_retries && open.retry_timeout == options.retry_timeout,
        pool@.options is Invalid ==> open.max_attempts == 0 && open.retry_timeout == (Delay {
            secs: 0,
            nanos: 0,
        }),
{
}

/// A sweep begins with all the opens that wait to poll, but no more than four.
pub proof fn law_call_of_begin_sweep<E>(pool: Pool, sweep: Sweep<E>)
    requires
        call_ensures(Pool::begin_sweep::<E>, (&pool,), sweep),
    ensures
        sweep.left <= pool@.inner.new.len(),
        sweep.left <= 4,
        sweep.left == pool@.inner.new.len() || sweep.left == 4,
        sweep.first_err is None,
        !sweep.wake_waiters,
{
}

/// A sweep takes out the open that has waited longest, as long as some are left to poll.
pub proof fn law_call_of_next_open<E>(pool: &mut Pool, sweep: &mut Sweep<E>, next: Option<u64>)
    requires
        call_ensures(Pool::next_open::<E>, (pool, sweep), next),
    ensures
        next is Some <==> old(sweep).left > 0 && old(pool)@.inner.new.len() > 0,
        next matches Some(ticket) ==> old(pool)@.inner.new == seq![ticket]
            + final(pool)@.inner.new && final(sweep).left + 1 == old(sweep).left,
        next is None ==> final(pool)@ == old(pool)@ && final(sweep).left == 0,
        final(pool)@ == (PoolView { inner: final(pool)@.inner, ..old(pool)@ }),
        final(pool)@.inner == (InnerView {
            new: final(pool)@.inner.new,
            ..old(pool)@.inner
        }),
        final(sweep).first_err == old(sweep).first_err,
        final(sweep).wake_waiters == old(sweep).wake_waiters,
{
    if next is Some {
        assert(old(pool)@.inner.new == seq![next->0] + final(pool)@.inner.new);
    }
}

/// What becomes of an open that was polled. A client is idle behind the others where there
/// is room, and else is handed back. An open that needs more time waits behind the others
/// where there is room, and else is handed back. An open that does not wait again is counted
/// out, and its slot is free unless its client is idle; exactly then the tasks that wait are
/// to be woken. The first error of a sweep stays its first.
pub proof fn law_call_of_settle_open<E>(
    pool: &mut Pool,
    sweep: &mut Sweep<E>,
    ticket: u64,
    polled: OpenPoll<E>,
    settled: Settled<E>,
)
    requires
        call_ensures(Pool::settle_open::<E>, (pool, sweep, ticket, polled), settled),
    ensures
        ({
            let before = old(pool)@.inner;
            let after = final(pool)@.inner;
            let got = polled is Ready && polled->0 is Ok;
            let failed = polled is Ready && polled->0 is Err;
            let stays_idle = got && before.idle.len() < before.idle_room;
            let waits_again = polled is Pending && before.new.len() < before.new_room;
            &&& final(pool)@ == PoolView { inner: after, ..old(pool)@ }
            &&& after == InnerView {
                new: after.new,
                idle: after.idle,
                conn_slots: after.conn_slots,
                pending_opens: after.pending_opens,
                ..before
            }
            &&& after.idle == before.idle + (if stays_idle {
                seq![(polled->0)->Ok_0]
            } else {
                Seq::empty()
            })
            &&& after.new == before.new + (if waits_again {
                seq![ticket]
            } else {
                Seq::empty()
            })
            &&& waits_again ==> after.pending_opens == before.pending_opens
            &&& !waits_again && before.pending_opens > 0 ==> after.pending_opens + 1
                == before.pending_opens
            &&& !waits_again && before.pending_opens == 0 ==> after.pending_opens == 0
            &&& waits_again || stays_idle ==> after.conn_slots == before.conn_slots
            &&& !waits_again && !stays_idle && before.conn_slots > 0 ==> after.conn_slots + 1
                == before.conn_slots
            &&& !waits_again && !stays_idle && before.conn_slots == 0 ==> after.conn_slots == 0
            &&& final(sweep).left == old(sweep).left
            &&& final(sweep).wake_waiters <==> old(sweep).wake_waiters || !waits_again
            &&& old(sweep).first_err is Some || !failed ==> final(sweep).first_err == old(
                sweep,
            ).first_err
            &&& old(sweep).first_err is None && failed ==> final(sweep).first_err == Some(
                (polled->0)->Err_0,
            )
            &&& settled is Idle <==> stays_idle
            &&& settled is Requeued <==> waits_again
            &&& got && !stays_idle ==> settled == Settled::<E>::Close((polled->0)->Ok_0)
            &&& polled is Pending && !waits_again ==> settled == Settled::<E>::Dropped(ticket)
            &&& failed && old(sweep).first_err is None ==> settled is FirstError
            &&& failed && old(sweep).first_err is Some ==> settled == Settled::<E>::LaterError(
                (polled->0)->Err_0,
            )
        }),
{
    let before = old(pool)@.inner;
    let after = final(pool)@.inner;
    if let OpenPoll::Ready(Ok(client)) = polled {
        if before.idle.len() < before.idle_room {
            assert(after.idle =~= before.idle + seq![client]);
        }
    }
    if polled is Pending && before.new.len() < before.new_room {
        assert(after.new =~= before.new + seq![ticket]);
    } else {
        assert(after.new =~= before.new + Seq::<u64>::empty());
    }
    assert(before.idle =~= before.idle + Seq::<ClientHandle>::empty());
}

/// A sweep fails exactly where an open failed, with the first error, and tells whether the
/// tasks that wait are to be woken.
pub proof fn law_call_of_finish<E>(sweep: Sweep<E>, result: Result<(), E>, wake: bool)
    requires
        call_ensures(Sweep::<E>::finish, (sweep,), (result, wake)),
    ensures
        result is Ok <==> sweep.first_err is None,
        result is Err ==> sweep.first_err == Some(result->Err_0),
        wake == sweep.wake_waiters,
{
}

/// A task that asks is given the client that has been idle longest; where none is idle, the
/// error of the sweep; without one, a connection is opened exactly where fewer than the
/// maximum are counted, fewer opens than four and than the maximum are under way, and there
/// is room; else the task waits, and the pool is as it was.
pub proof fn law_call_of_poll_step<E>(
    pool: &mut Pool,
    swept: Result<(), E>,
    ticket: u64,
    step: Step<E>,
)
    requires
        call_ensures(Pool::poll_step::<E>, (pool, swept, ticket), step),
    ensures
        ({
            let before = old(pool)@.inner;
            let after = final(pool)@.inner;
            let first = before.idle[0];
            let opens = before.conn_slots < old(pool)@.max && before.pending_opens < 4
                && before.pending_opens < old(pool)@.max && before.new.len() < before.new_room;
            &&& final(pool)@ == PoolView { inner: after, ..old(pool)@ }
            &&& step is Use <==> before.idle.len() > 0
            &&& step is Fail <==> before.idle.len() == 0 && swept is Err
            &&& step is Open <==> before.idle.len() == 0 && swept is Ok && opens
            &&& step is Wait <==> before.idle.len() == 0 && swept is Ok && !opens
            &&& match step {
                Step::Use(client, passed_over) => {
                    &&& client.pool == PoolBinding::Attached(old(pool)@.id)
                    &&& client.used
                    &&& client.context == first.context
                    &&& client.inner is Some <==> first.inner is Some
                    &&& first.inner is Some ==> client.inner->0.stream == first.inner->0.stream
                        && !client.inner->0.inside
                    &&& swept is Ok ==> passed_over is None
                    &&& swept is Err ==> passed_over == Some(swept->Err_0)
                    &&& before.idle == seq![first] + after.idle
                    &&& before.ongoing < usize::MAX ==> after.ongoing == before.ongoing + 1
                    &&& after == InnerView { idle: after.idle, ongoing: after.ongoing, ..before }
                },
                Step::Fail(error) => swept->Err_0 == error && after == before,
                Step::Open(open) => {
                    &&& open.pool == Some(old(pool)@.id)
                    &&& open.attempt == 0
                    &&& old(pool)@.options matches OptionsSource::Loaded(options)
                        ==> open.max_attempts == options.send_retries && open.retry_timeout
                        == options.retry_timeout
                    &&& after.new == before.new + seq![ticket]
                    &&& after.conn_slots == before.conn_slots + 1
                    &&& after.pending_opens == before.pending_opens + 1
                    &&& after == InnerView {
                        new: after.new,
                        conn_slots: after.conn_slots,
                        pending_opens: after.pending_opens,
                        ..before
                    }
                },
                Step::Wait => after == before,
            }
        }),
{
    let before = old(pool)@.inner;
    let after = final(pool)@.inner;
    if step is Use {
        assert(before.idle =~= seq![before.idle[0]] + after.idle);
    }
    if step is Open {
        assert(after.new =~= before.new + seq![ticket]);
    }
}

/// A task that registers waits behind the others, and is to be woken at once exactly where a
/// client is idle, or a connection may be opened: fewer than the maximum are counted, and
/// fewer opens than four and than the maximum are under way.
pub proof fn law_call_of_register_task(pool: &mut Pool, task: u64, wake_self: bool)
    requires
        call_ensures(Pool::register_task, (pool, task), wake_self),
    ensures
        wake_self <==> old(pool)@.inner.idle.len() > 0 || (old(pool)@.inner.conn_slots < old(
            pool,
        )@.max && old(pool)@.inner.pending_opens < 4 && old(pool)@.inner.pending_opens < old(
            pool,
        )@.max),
        final(pool)@.inner.tasks == old(pool)@.inner.tasks + seq![task],
        final(pool)@.inner == (InnerView {
            tasks: final(pool)@.inner.tasks,
            ..old(pool)@.inner
        }),
        final(pool)@ == (PoolView { inner: final(pool)@.inner, ..old(pool)@ }),
{
    assert(final(pool)@.inner.tasks =~= old(pool)@.inner.tasks + seq![task]);
}

/// A sweep in which an open ended wakes all the tasks that waited, in their order, and then
/// all that the wakers put back meanwhile, for as long as some task waits and no longer;
/// after it no task waits.
pub proof fn law_a_sweep_with_an_end_wakes_all<E>(
    pool: &mut Pool,
    polls: Vec<OpenPoll<E>>,
    parks: Vec<Vec<u64>>,
    swept: Swept<E>,
    i: int,
)
    requires
        call_ensures(Pool::handle_futures::<E>, (pool, polls, parks), swept),
        0 <= i < polls@.len(),
        polls@[i] is Ready,
    ensures
        final(pool)@.inner.tasks.len() == 0,
        swept.woken@.len() >= old(pool)@.inner.tasks.len(),
        parks@.len() == 0 ==> swept.woken@ == old(pool)@.inner.tasks,
        swept.woken@ == old(pool)@.inner.tasks + put_back(
            parks_view(parks@),
            swept.woken@.len() as int,
        ),
        forall|k: int|
            0 <= k < swept.woken@.len() ==> k < old(pool)@.inner.tasks.len() + (
            #[trigger] put_back(parks_view(parks@), k)).len(),
{
    crate::laws::law_an_ended_open_wakes_all(old(pool)@, polls@, i);
    law_an_ended_open_leaves_nobody_waiting(old(pool)@, polls@, parks_view(parks@), i);
    law_waking_ends_when_nobody_waits(old(pool)@.inner.tasks, parks_view(parks@));
}

/// A sweep fails exactly where an open ended with an error, and then with the first such
/// error; the others come after it, in their order.
pub proof fn law_the_error_of_a_sweep<E>(
    pool: &mut Pool,
    polls: Vec<OpenPoll<E>>,
    parks: Vec<Vec<u64>>,
    swept: Swept<E>,
)
    requires
        call_ensures(Pool::handle_futures::<E>, (pool, polls, parks), swept),
    ensures
        swept.result is Ok <==> forall|i: int|
            0 <= i < polls@.len() ==> !(#[trigger] polls@[i] is Ready && polls@[i]->0 is Err),
        swept.result is Ok ==> swept.later_errors@.len() == 0,
        swept.result is Err ==> exists|i: int|
            {
                &&& 0 <= i < polls@.len()
                &&& #[trigger] polls@[i] == OpenPoll::<E>::Ready(Err(swept.result->Err_0))
                &&& forall|j: int|
                    0 <= j < i ==> !(#[trigger] polls@[j] is Ready && polls@[j]->0 is Err)
            },
        swept.result is Err ==> errors(polls@) == seq![swept.result->Err_0]
            + swept.later_errors@,
{
    crate::effects::law_first_and_later_errors(polls@);
    lemma_first_of_the_errors(polls@);
}

/// Where there are errors, one poll gave the first of them, and none before it gave any.
proof fn lemma_first_of_the_errors<E>(polls: Seq<OpenPoll<E>>)
    ensures
        errors(polls).len() == 0 <==> forall|i: int|
            0 <= i < polls.len() ==> !(#[trigger] polls[i] is Ready && polls[i]->0 is Err),
        errors(polls).len() > 0 ==> exists|i: int|
            {
                &&& 0 <= i < polls.len()
                &&& #[trigger] polls[i] == OpenPoll::<E>::Ready(Err(errors(polls)[0]))
                &&& forall|j: int|
                    0 <= j < i ==> !(#[trigger] polls[j] is Ready && polls[j]->0 is Err)
            },
    decreases polls.len(),
{
    if polls.len() > 0 {
        let earlier = polls.drop_last();
        let last = polls.len() - 1;
        lemma_first_of_the_errors(earlier);
        assert(forall|i: int| 0 <= i < last ==> #[trigger] polls[i] == earlier[i]);
        if errors(earlier).len() > 0 {
            let i = choose|i: int|
                {
                    &&& 0 <= i < earlier.len()
                    &&& #[trigger] earlier[i] == OpenPoll::<E>::Ready(Err(errors(earlier)[0]))
                    &&& forall|j: int|
                        0 <= j < i ==> !(#[trigger] earlier[j] is Ready && earlier[j]->0 is Err)
                };
            assert(errors(polls)[0] == errors(earlier)[0]);
            assert(polls[i] == OpenPoll::<E>::Ready(Err(errors(polls)[0])));
        } else if polls.last() is Ready && polls.last()->0 is Err {
            assert(polls[last] == OpenPoll::<E>::Ready(Err(errors(polls)[0])));
        }
    }
}

/// A sweep over a pool that is accounted for polls the opens that have waited longest. Those
/// that need more time wait again, behind the others; the clients that were obtained are idle
/// behind the others; each error frees a slot; each open that ended is counted out; nothing
/// is dropped, and nothing else changes but which tasks wait.
pub proof fn law_what_a_sweep_does<E>(
    pool: &mut Pool,
    polls: Vec<OpenPoll<E>>,
    parks: Vec<Vec<u64>>,
    swept: Swept<E>,
)
    requires
        call_ensures(Pool::handle_futures::<E>, (pool, polls, parks), swept),
        old(pool)@.accounted(),
        polls@.len() <= old(pool)@.inner.new.len(),
    ensures
        ({
            let before = old(pool)@.inner;
            let after = final(pool)@.inner;
            &&& final(pool)@ == PoolView { inner: after, ..old(pool)@ }
            &&& after == InnerView {
                new: before.new.skip(polls@.len() as int) + requeued(before.new, polls@),
                idle: before.idle + obtained(polls@),
                tasks: after.tasks,
                conn_slots: after.conn_slots,
                pending_opens: after.pending_opens,
                ..before
            }
            &&& after.conn_slots + errors(polls@).len() == before.conn_slots
            &&& after.pending_opens + obtained(polls@).len() + errors(polls@).len()
                == before.pending_opens
            &&& swept.closed@.len() == 0
            &&& swept.dropped@.len() == 0
        }),
{
    law_sweep_in_full(old(pool)@, polls@);
    lemma_polled_frame(old(pool)@, polls@);
}

/// A sweep over a pool that is accounted for, in which every open needs more time, changes
/// nothing, wakes nobody and reports nothing.
pub proof fn law_a_sweep_without_an_end<E>(
    pool: &mut Pool,
    polls: Vec<OpenPoll<E>>,
    parks: Vec<Vec<u64>>,
    swept: Swept<E>,
)
    requires
        call_ensures(Pool::handle_futures::<E>, (pool, polls, parks), swept),
        old(pool)@.accounted(),
        polls@.len() == old(pool)@.inner.new.len(),
        forall|i: int| 0 <= i < polls@.len() ==> polls@[i] is Pending,
    ensures
        final(pool)@ == old(pool)@,
        swept.result is Ok,
        swept.later_errors@.len() == 0,
        swept.woken@.len() == 0,
        swept.closed@.len() == 0,
        swept.dropped@.len() == 0,
{
    law_a_sweep_without_news_changes_nothing(old(pool)@, polls@);
    law_what_a_sweep_does(pool, polls, parks, swept);
    law_the_error_of_a_sweep(pool, polls, parks, swept);
}

/// The clients that were idle before a sweep stay in front.
proof fn lemma_idle_in_front<E>(pool: PoolView, polls: Seq<OpenPoll<E>>)
    ensures
        pool.polled(polls).inner.idle.len() >= pool.inner.idle.len(),
        forall|i: int|
            0 <= i < pool.inner.idle.len() ==> #[trigger] pool.polled(polls).inner.idle[i]
                == pool.inner.idle[i],
    decreases polls.len(),
{
    if polls.len() > 0 {
        lemma_idle_in_front(pool, polls.drop_last());
    }
}

/// A task that asks while a client is idle gets the one that has been idle longest, whatever
/// the sweep before gave; no connection is opened, and the task does not wait. The errors of
/// the sweep are passed over.
pub proof fn law_who_asks_gets_an_idle_client<E>(
    pool: &mut Pool,
    polls: Vec<OpenPoll<E>>,
    parks: Vec<Vec<u64>>,
    ticket: u64,
    task: u64,
    polled: Polled<E>,
)
    requires
        call_ensures(Pool::poll::<E>, (pool, polls, parks, ticket, task), polled),
        old(pool)@.inner.idle.len() > 0,
    ensures
        ({
            let first = old(pool)@.inner.idle[0];
            &&& polled.result matches Some(Ok(client)) && {
                &&& client.pool == PoolBinding::Attached(old(pool)@.id)
                &&& client.used
                &&& client.context == first.context
                &&& client.inner is Some <==> first.inner is Some
                &&& first.inner is Some ==> client.inner->0.stream == first.inner->0.stream
                    && !client.inner->0.inside
            }
            &&& polled.opened is None
            &&& !polled.wake_self
            &&& polled.passed_over@ == errors(polls@)
            &&& old(pool)@.inner.ongoing < usize::MAX ==> final(pool)@.inner.ongoing == old(
                pool,
            )@.inner.ongoing + 1
        }),
{
    lemma_idle_in_front(old(pool)@, polls@);
    lemma_polled_frame(old(pool)@, polls@);
}

/// What a task gets that asks a pool that is accounted for: the client that has been idle
/// longest, where one is idle or the sweep obtained one; else the first error of the sweep;
/// else a connection is opened where fewer than the maximum are counted, and fewer opens than
/// four and than the maximum are under way, and the task asks again at once; else the task
/// waits, behind the others.
pub proof fn law_call_of_poll<E>(
    pool: &mut Pool,
    polls: Vec<OpenPoll<E>>,
    parks: Vec<Vec<u64>>,
    ticket: u64,
    task: u64,
    polled: Polled<E>,
)
    requires
        call_ensures(Pool::poll::<E>, (pool, polls, parks, ticket, task), polled),
        old(pool)@.accounted(),
        polls@.len() == old(pool)@.inner.new.len(),
    ensures
        ({
            let before = old(pool)@.inner;
            let after = final(pool)@.inner;
            let idle = before.idle + obtained(polls@);
            let opens = before.conn_slots < old(pool)@.max && before.pending_opens < 4
                && before.pending_opens < old(pool)@.max;
            &&& final(pool)@ == PoolView { inner: after, ..old(pool)@ }
            &&& polled.closed@.len() == 0
            &&& polled.dropped@.len() == 0
            &&& after.new_room == before.new_room
            &&& after.idle_room == before.idle_room
            &&& after.hosts == before.hosts
            &&& after.connections_num == before.connections_num
            &&& if idle.len() > 0 {
                &&& polled.result matches Some(Ok(client)) && {
                    &&& client.pool == PoolBinding::Attached(old(pool)@.id)
                    &&& client.used
                    &&& client.context == idle[0].context
                    &&& client.inner is Some <==> idle[0].inner is Some
                    &&& idle[0].inner is Some ==> client.inner->0.stream
                        == idle[0].inner->0.stream && !client.inner->0.inside
                }
                &&& polled.passed_over@ == errors(polls@)
                &&& polled.opened is None
                &&& !polled.wake_self
                &&& idle == seq![idle[0]] + after.idle
                &&& after.new == before.new.skip(polls@.len() as int) + requeued(
                    before.new,
                    polls@,
                )
                &&& before.ongoing < usize::MAX ==> after.ongoing == before.ongoing + 1
                &&& after.conn_slots + errors(polls@).len() == before.conn_slots
                &&& after.pending_opens + obtained(polls@).len() + errors(polls@).len()
                    == before.pending_opens
            } else if errors(polls@).len() > 0 {
                &&& polled.result == Some(Err::<ClientHandle, E>(errors(polls@)[0]))
                &&& polled.passed_over@ == errors(polls@).skip(1)
                &&& polled.opened is None
                &&& !polled.wake_self
                &&& after.idle.len() == 0
                &&& after.new == before.new.skip(polls@.len() as int) + requeued(
                    before.new,
                    polls@,
                )
                &&& after.ongoing == before.ongoing
                &&& after.conn_slots + errors(polls@).len() == before.conn_slots
                &&& after.pending_opens + errors(polls@).len() == before.pending_opens
            } else if opens {
                &&& polled.result is None
                &&& polled.passed_over@.len() == 0
                &&& polled.opened matches Some(open) && open.pool == Some(old(pool)@.id)
                    && open.attempt == 0
                &&& polled.wake_self
                &&& polled.woken@.len() == 0
                &&& after.new == before.new + seq![ticket]
                &&& after.conn_slots == before.conn_slots + 1
                &&& after.pending_opens == before.pending_opens + 1
                &&& after == InnerView {
                    new: after.new,
                    conn_slots: after.conn_slots,
                    pending_opens: after.pending_opens,
                    ..before
                }
            } else {
                &&& polled.result is None
                &&& polled.passed_over@.len() == 0
                &&& polled.opened is None
                &&& !polled.wake_self
                &&& polled.woken@.len() == 0
                &&& after.tasks == before.tasks + seq![task]
                &&& after == InnerView { tasks: after.tasks, ..before }
            }
        }),
{
    let before = old(pool)@.inner;
    let after = final(pool)@.inner;
    let idle = before.idle + obtained(polls@);
    law_sweep_in_full(old(pool)@, polls@);
    lemma_polled_frame(old(pool)@, polls@);
    if idle.len() > 0 {
        assert(idle =~= seq![idle[0]] + after.idle);
    } else if errors(polls@).len() == 0 {
        assert forall|i: int| 0 <= i < polls@.len() implies polls@[i] is Pending by {
            lemma_neither_client_nor_error(polls@, i);
        }
        law_a_sweep_without_news_changes_nothing(old(pool)@, polls@);
        if polled.opened is Some {
            assert(after.new =~= before.new + seq![ticket]);
        } else {
            assert(after.tasks =~= before.tasks + seq![task]);
        }
    }
}

/// Where no poll gave a client and none an error, each open needs more time.
proof fn lemma_neither_client_nor_error<E>(polls: Seq<OpenPoll<E>>, i: int)
    requires
        obtained(polls).len() == 0,
        errors(polls).len() == 0,
        0 <= i < polls.len(),
    ensures
        polls[i] is Pending,
    decreases polls.len(),
{
    if i < polls.len() - 1 {
        lemma_neither_client_nor_error(polls.drop_last(), i);
        assert(polls.drop_last()[i] == polls[i]);
    }
}

/// A task that asks after an open ended sees all who waited woken: those that waited, in
/// their order, and then all that the wakers put back meanwhile.
pub proof fn law_asking_wakes_all_after_an_end<E>(
    pool: &mut Pool,
    polls: Vec<OpenPoll<E>>,
    parks: Vec<Vec<u64>>,
    ticket: u64,
    task: u64,
    polled: Polled<E>,
    i: int,
)
    requires
        call_ensures(Pool::poll::<E>, (pool, polls, parks, ticket, task), polled),
        0 <= i < polls@.len(),
        polls@[i] is Ready,
    ensures
        polled.woken@.len() >= old(pool)@.inner.tasks.len(),
        parks@.len() == 0 ==> polled.woken@ == old(pool)@.inner.tasks,
        polled.woken@ == old(pool)@.inner.tasks + put_back(
            parks_view(parks@),
            polled.woken@.len() as int,
        ),
        forall|k: int|
            0 <= k < polled.woken@.len() ==> k < old(pool)@.inner.tasks.len() + (
            #[trigger] put_back(parks_view(parks@), k)).len(),
        final(pool)@.inner.tasks.len() == 0 || final(pool)@.inner.tasks == seq![task],
{
    crate::laws::law_an_ended_open_wakes_all(old(pool)@, polls@, i);
    law_an_ended_open_leaves_nobody_waiting(old(pool)@, polls@, parks_view(parks@), i);
    law_waking_ends_when_nobody_waits(old(pool)@.inner.tasks, parks_view(parks@));
    if final(pool)@.inner.tasks.len() > 0 {
        assert(final(pool)@.inner.tasks =~= seq![task]);
    }
}

/// The numbers that describe a pool, and their names.
pub proof fn law_call_of_debug_fields(pool: Pool, fields: Vec<(&'static str, usize)>)
    requires
        call_ensures(Pool::debug_fields, (&pool,), fields),
    ensures
        fields@.len() == 8,
        fields@[0].0@ == "min"@ && fields@[0].1 == pool@.min,
        fields@[1].0@ == "max"@ && fields@[1].1 == pool@.max,
        fields@[2].0@ == "new connections count"@ && fields@[2].1 == pool@.inner.new.len(),
        fields@[3].0@ == "pending open connections count"@ && fields@[3].1
            == pool@.inner.pending_opens,
        fields@[4].0@ == "pending open connections limit"@ && fields@[4].1 <= pool@.max
            && fields@[4].1 <= 4 && (fields@[4].1 == pool@.max || fields@[4].1 == 4),
        fields@[5].0@ == "idle connections count"@ && fields@[5].1 == pool@.inner.idle.len(),
        fields@[6].0@ == "tasks count"@ && fields@[6].1 == pool@.inner.tasks.len(),
        fields@[7].0@ == "ongoing connections count"@ && fields@[7].1 == pool@.inner.ongoing,
{
    let view = crate::text::fields_view(fields@);
    let told = crate::pool::described(pool@);
    assert(view == told);
    assert(told.len() == 8);
    assert forall|i: int| 0 <= i < 8 implies #[trigger] told[i] == (
        fields@[i].0@,
        fields@[i].1 as nat,
    ) by {
        assert(view[i] == told[i]);
    }
}

/// The description of a pool is its name, and the list of its fields in braces.
pub proof fn law_call_of_debug_text(pool: Pool, fields: Vec<(&'static str, usize)>, text: String)
    requires
        call_ensures(Pool::debug_fields, (&pool,), fields),
        call_ensures(Pool::debug_text, (&pool,), text),
    ensures
        text@ == "Pool"@ + seq![' ', '{', ' '] + crate::text::listed(
            crate::text::fields_view(fields@),
        ) + seq![' ', '}'],
{
    crate::effects::law_a_structure("Pool"@, crate::text::fields_view(fields@));
}

} // verus!
