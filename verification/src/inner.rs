//! The state of a pool: its queues and its counters.

use crossbeam::queue::{ArrayQueue, SegQueue};
use vstd::prelude::*;

use crate::client::ClientHandle;
use crate::host::{names_text_port, Host, TEXT_PROTOCOL_PORT};
use crate::queue::{
    count_clients, count_tasks, count_tickets, new_clients, new_tasks, new_tickets, pop_client,
    pop_task, pop_ticket, push_client, push_task, push_ticket,
};

verus! {

/// Backpressure at a cold start: how many connections may be opening at once.
pub const PENDING_OPEN_LIMIT: usize = 4;

/// How many connections may be opening at once in a pool of at most `max` connections.
pub open spec fn open_limit(max: nat) -> nat {
    if max < PENDING_OPEN_LIMIT {
        max
    } else {
        PENDING_OPEN_LIMIT as nat
    }
}

/// How many connections may be opening at once in a pool of at most `max` connections.
pub fn pending_open_limit(max: usize) -> (limit: usize)
    ensures
        limit == open_limit(max as nat),
{
    if max < PENDING_OPEN_LIMIT {
        max
    } else {
        PENDING_OPEN_LIMIT
    }
}

/// One less, or zero.
pub open spec fn less_one(count: nat) -> nat {
    if count == 0 {
        0
    } else {
        (count - 1) as nat
    }
}

/// One more, or zero past the greatest `usize`.
pub open spec fn wrapping_more(count: nat) -> nat {
    if count == usize::MAX {
        0
    } else {
        count + 1
    }
}

/// What the lists of tasks are.
pub open spec fn parks_view(parks: Seq<Vec<u64>>) -> Seq<Seq<u64>> {
    parks.map_values(|tasks: Vec<u64>| tasks@)
}

/// The tasks that are woken, in this order, where `tasks` wait and the n-th waker puts
/// the n-th of `parks` behind the tasks that wait while it is woken.
pub open spec fn woken_tasks(tasks: Seq<u64>, parks: Seq<Seq<u64>>) -> Seq<u64>
    decreases parks.len(), tasks.len(),
{
    if tasks.len() == 0 {
        Seq::empty()
    } else if parks.len() == 0 {
        tasks
    } else {
        seq![tasks[0]] + woken_tasks(tasks.skip(1) + parks[0], parks.skip(1))
    }
}

/// What the state of a pool is.
#[verifier::ext_equal]
pub struct InnerView {
    /// Tickets of the opens that wait to be polled, oldest first.
    pub new: Seq<u64>,
    /// How many such tickets there is room for.
    pub new_room: nat,
    /// The idle clients, the one that came first in front.
    pub idle: Seq<ClientHandle>,
    /// How many idle clients there is room for.
    pub idle_room: nat,
    /// The tasks to wake when a connection may be had, oldest first.
    pub tasks: Seq<u64>,
    /// Number of clients in the hands of users.
    pub ongoing: nat,
    /// Number of connections that are counted against the pool's maximum.
    pub conn_slots: nat,
    /// Number of opens that wait or are being polled.
    pub pending_opens: nat,
    /// The servers.
    pub hosts: Seq<Host>,
    /// Number of addresses handed out.
    pub connections_num: nat,
}

impl InnerView {
    /// The state after an attempt to take a slot for a connection.
    pub open spec fn conn_reserved(self, max: nat) -> InnerView {
        if self.conn_slots < max {
            InnerView { conn_slots: self.conn_slots + 1, ..self }
        } else {
            self
        }
    }

    /// The state after an attempt to count an open in.
    pub open spec fn pending_open_reserved(self, max: nat) -> InnerView {
        if self.pending_opens < max {
            InnerView { pending_opens: self.pending_opens + 1, ..self }
        } else {
            self
        }
    }

    /// The state after the slot of a connection was freed.
    pub open spec fn conn_slot_released(self) -> InnerView {
        InnerView { conn_slots: less_one(self.conn_slots), ..self }
    }

    /// The state after an open was counted out.
    pub open spec fn pending_open_released(self) -> InnerView {
        InnerView { pending_opens: less_one(self.pending_opens), ..self }
    }
}

/// The state of a pool.
pub struct Inner {
    new: ArrayQueue<u64>,
    idle: ArrayQueue<ClientHandle>,
    tasks: SegQueue<u64>,
    ongoing: usize,
    conn_slots: usize,
    // Counts queued opens plus opens temporarily popped for polling.
    pending_opens: usize,
    hosts: Vec<Host>,
    connections_num: usize,
}

impl View for Inner {
    type V = InnerView;

    closed spec fn view(&self) -> InnerView {
        InnerView {
            new: crate::queue::tickets(self.new),
            new_room: crate::queue::ticket_capacity(self.new),
            idle: crate::queue::clients(self.idle),
            idle_room: crate::queue::client_capacity(self.idle),
            tasks: crate::queue::queued_tasks(self.tasks),
            ongoing: self.ongoing as nat,
            conn_slots: self.conn_slots as nat,
            pending_opens: self.pending_opens as nat,
            hosts: self.hosts@,
            connections_num: self.connections_num as nat,
        }
    }
}

impl Inner {
    /// The state of a pool that has no connection yet, of at most `max` of them.
    pub fn new(max: usize, hosts: Vec<Host>) -> (inner: Self)
        requires
            0 < max,
            crate::queue::addressable(max as int),
        ensures
            inner@ == (InnerView {
                new: Seq::empty(),
                new_room: open_limit(max as nat),
                idle: Seq::empty(),
                idle_room: max as nat,
                tasks: Seq::empty(),
                ongoing: 0,
                conn_slots: 0,
                pending_opens: 0,
                hosts: hosts@,
                connections_num: 0,
            }),
    {
        let limit: usize = pending_open_limit(max);
        Inner {
            new: new_tickets(if limit < 1 { 1 } else { limit }),
            idle: new_clients(max),
            tasks: new_tasks(),
            ongoing: 0,
            conn_slots: 0,
            pending_opens: 0,
            hosts,
            connections_num: 0,
        }
    }

    /// Counts a connection out that a user had, and frees its slot. Returns whether the
    /// tasks that wait are to be woken then, which is so unless no user has a connection.
    #[must_use]
    pub fn release_conn(&mut self) -> (wake: bool)
        ensures
            wake == (old(self)@.ongoing > 0),
            final(self)@ == (if wake {
                InnerView {
                    ongoing: less_one(old(self)@.ongoing),
                    conn_slots: less_one(old(self)@.conn_slots),
                    ..old(self)@
                }
            } else {
                old(self)@
            }),
    {
        if self.ongoing == 0 {
            return false;
        }
        self.ongoing = self.ongoing - 1;
        self.release_conn_slot();
        true
    }

    /// Number of connections that are counted against the pool's maximum.
    pub fn conn_count(&self) -> (count: usize)
        ensures
            count == self@.conn_slots,
    {
        self.conn_slots
    }

    /// Number of opens that wait or are being polled.
    pub fn pending_open_count(&self) -> (count: usize)
        ensures
            count == self@.pending_opens,
    {
        self.pending_opens
    }

    /// Takes a slot for a connection, unless `max` of them are taken.
    pub fn try_reserve_conn(&mut self, max: usize) -> (reserved: bool)
        ensures
            reserved == (old(self)@.conn_slots < max),
            final(self)@ == old(self)@.conn_reserved(max as nat),
    {
        let current: usize = self.conn_count();
        if current < max {
            self.conn_slots = current + 1;
            return true;
        }
        false
    }

    /// Counts an open in, unless `max` of them are under way.
    pub fn try_reserve_pending_open(&mut self, max: usize) -> (reserved: bool)
        ensures
            reserved == (old(self)@.pending_opens < max),
            final(self)@ == old(self)@.pending_open_reserved(max as nat),
    {
        let current: usize = self.pending_open_count();
        if current < max {
            self.pending_opens = current + 1;
            return true;
        }
        false
    }

    /// Frees the slot of a connection. Returns whether one was taken.
    pub fn release_conn_slot(&mut self) -> (released: bool)
        ensures
            released == (old(self)@.conn_slots > 0),
            final(self)@ == old(self)@.conn_slot_released(),
    {
        match self.conn_slots.checked_sub(1) {
            Some(count) => {
                self.conn_slots = count;
                true
            },
            None => false,
        }
    }

    /// Counts an open out. Returns whether one was under way.
    pub fn release_pending_open(&mut self) -> (released: bool)
        ensures
            released == (old(self)@.pending_opens > 0),
            final(self)@ == old(self)@.pending_open_released(),
    {
        match self.pending_opens.checked_sub(1) {
            Some(count) => {
                self.pending_opens = count;
                true
            },
            None => false,
        }
    }

    /// Takes out the task that has waited longest, to be woken. To wake the tasks is to
    /// take them out, one after the other, and to wake each before the next is taken out,
    /// until none waits: a task that a waker puts back meanwhile is woken too.
    #[must_use]
    pub fn next_task(&mut self) -> (next: Option<u64>)
        ensures
            match next {
                Some(task) => {
                    &&& old(self)@.tasks.len() > 0
                    &&& task == old(self)@.tasks[0]
                    &&& final(self)@ == InnerView { tasks: old(self)@.tasks.skip(1), ..old(self)@ }
                },
                None => old(self)@.tasks.len() == 0 && final(self)@ == old(self)@,
            },
    {
        pop_task(&mut self.tasks)
    }

    /// Wakes the tasks that wait, where the n-th waker puts the n-th of `parks` behind the
    /// tasks that wait while it is woken, and the wakers past the end of `parks` put
    /// nothing there. Returns the tasks that were woken, in this order.
    pub fn wake_tasks(&mut self, parks: Vec<Vec<u64>>) -> (woken: Vec<u64>)
        ensures
            woken@ == woken_tasks(old(self)@.tasks, parks_view(parks@)),
            final(self)@ == (InnerView { tasks: Seq::empty(), ..old(self)@ }),
    {
        let mut woken: Vec<u64> = Vec::new();
        let mut parks = parks;
        let ghost all = woken_tasks(self@.tasks, parks_view(parks@));
        loop
            invariant
                woken@ + woken_tasks(self@.tasks, parks_view(parks@)) == all,
                self@ == (InnerView { tasks: self@.tasks, ..old(self)@ }),
            ensures
                self@.tasks.len() == 0,
            decreases parks@.len(), self@.tasks.len(),
        {
            let ghost waiting = self@.tasks;
            let ghost left = parks_view(parks@);
            match self.next_task() {
                Some(task) => {
                    woken.push(task);
                    if parks.len() > 0 {
                        let again = parks.remove(0);
                        self.park_tasks(&again);
                        assert(left[0] == again@);
                        assert(parks_view(parks@) == left.skip(1));
                    }
                    assert(woken_tasks(waiting, left) == seq![task] + woken_tasks(
                        self@.tasks,
                        parks_view(parks@),
                    ));
                },
                None => break,
            }
        }
        woken
    }

    /// Puts tasks behind those that wait.
    fn park_tasks(&mut self, tasks: &Vec<u64>)
        ensures
            final(self)@ == (InnerView { tasks: old(self)@.tasks + tasks@, ..old(self)@ }),
    {
        let mut i: usize = 0;
        while i < tasks.len()
            invariant
                i <= tasks@.len(),
                self@ == (InnerView {
                    tasks: old(self)@.tasks + tasks@.take(i as int),
                    ..old(self)@
                }),
            decreases tasks@.len() - i,
        {
            self.push_task(tasks[i]);
            i = i + 1;
        }
    }

    /// Number of opens that wait to be polled.
    pub fn new_len(&self) -> (len: usize)
        ensures
            len == self@.new.len(),
    {
        count_tickets(&self.new)
    }

    /// Puts an open behind those that wait, or hands its ticket back where there is
    /// no room.
    pub fn push_new(&mut self, ticket: u64) -> (pushed: Result<(), u64>)
        ensures
            match pushed {
                Ok(()) => {
                    &&& old(self)@.new.len() < old(self)@.new_room
                    &&& final(self)@ == InnerView { new: old(self)@.new.push(ticket), ..old(self)@ }
                },
                Err(refused) => {
                    &&& old(self)@.new.len() >= old(self)@.new_room
                    &&& final(self)@ == old(self)@
                    &&& refused == ticket
                },
            },
    {
        push_ticket(&mut self.new, ticket)
    }

    /// Takes out the open that has waited longest.
    pub fn pop_new(&mut self) -> (popped: Option<u64>)
        ensures
            match popped {
                Some(ticket) => {
                    &&& old(self)@.new.len() > 0
                    &&& ticket == old(self)@.new[0]
                    &&& final(self)@ == InnerView { new: old(self)@.new.skip(1), ..old(self)@ }
                },
                None => old(self)@.new.len() == 0 && final(self)@ == old(self)@,
            },
    {
        pop_ticket(&mut self.new)
    }

    /// Number of idle clients.
    pub fn idle_len(&self) -> (len: usize)
        ensures
            len == self@.idle.len(),
    {
        count_clients(&self.idle)
    }

    /// Puts a client behind the idle ones, or hands it back where there is no room.
    pub fn push_idle(&mut self, client: ClientHandle) -> (pushed: Result<(), ClientHandle>)
        ensures
            match pushed {
                Ok(()) => {
                    &&& old(self)@.idle.len() < old(self)@.idle_room
                    &&& final(self)@ == InnerView {
                        idle: old(self)@.idle.push(client),
                        ..old(self)@
                    }
                },
                Err(refused) => {
                    &&& old(self)@.idle.len() >= old(self)@.idle_room
                    &&& final(self)@ == old(self)@
                    &&& refused == client
                },
            },
    {
        push_client(&mut self.idle, client)
    }

    /// Takes out the client that has been idle longest.
    pub fn pop_idle(&mut self) -> (popped: Option<ClientHandle>)
        ensures
            match popped {
                Some(client) => {
                    &&& old(self)@.idle.len() > 0
                    &&& client == old(self)@.idle[0]
                    &&& final(self)@ == InnerView { idle: old(self)@.idle.skip(1), ..old(self)@ }
                },
                None => old(self)@.idle.len() == 0 && final(self)@ == old(self)@,
            },
    {
        pop_client(&mut self.idle)
    }

    /// Number of tasks that wait.
    pub fn tasks_len(&self) -> (len: usize)
        ensures
            len == self@.tasks.len(),
    {
        count_tasks(&self.tasks)
    }

    /// Puts a task behind those that wait.
    pub fn push_task(&mut self, task: u64)
        ensures
            final(self)@ == (InnerView { tasks: old(self)@.tasks.push(task), ..old(self)@ }),
    {
        push_task(&mut self.tasks, task)
    }

    /// Number of clients in the hands of users.
    pub fn ongoing_count(&self) -> (count: usize)
        ensures
            count == self@.ongoing,
    {
        self.ongoing
    }

    /// Counts a client in that a user takes.
    pub(crate) fn add_ongoing(&mut self)
        ensures
            final(self)@ == (InnerView {
                ongoing: wrapping_more(old(self)@.ongoing),
                ..old(self)@
            }),
    {
        self.ongoing = self.ongoing.wrapping_add(1);
    }

    /// Counts a client out that a user gives back.
    pub(crate) fn sub_ongoing(&mut self)
        requires
            old(self)@.ongoing > 0,
        ensures
            final(self)@ == (InnerView { ongoing: less_one(old(self)@.ongoing), ..old(self)@ }),
    {
        self.ongoing = self.ongoing - 1;
    }

    /// Whether one of the servers is on the port of the text protocol.
    pub fn names_text_port(&self) -> (named: bool)
        ensures
            named == exists|i: int|
                0 <= i < self@.hosts.len() && (#[trigger] self@.hosts[i]).spec_port() == Some(
                    TEXT_PROTOCOL_PORT,
                ),
    {
        names_text_port(&self.hosts)
    }

    /// The server whose turn it is. The servers take turns, in their order.
    pub(crate) fn next_host(&mut self) -> (host: &Host)
        requires
            old(self)@.hosts.len() > 0,
        ensures
            *host == old(self)@.hosts[old(self)@.connections_num as int % old(
                self,
            )@.hosts.len() as int],
            final(self)@ == (InnerView {
                connections_num: wrapping_more(old(self)@.connections_num),
                ..old(self)@
            }),
    {
        let n: usize = self.hosts.len();
        let index: usize = self.connections_num;
        self.connections_num = index.wrapping_add(1);
        &self.hosts[index % n]
    }
}

} // verus!
