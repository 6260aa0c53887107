//! The tasks that a worker has in hand.
use vstd::prelude::*;

use crate::lmodel::protocol::{Message, TaskMessage};
use crate::strmap::StrMap;

verus! {

/// The tasks in hand: for each request the number under which its task can be called off, how
/// many tasks are being worked on, and the number of the next one.
#[verifier::ext_equal]
pub struct TasksModel {
    pub running: Map<Seq<char>, u64>,
    pub active: u32,
    pub next: u64,
}

pub open spec fn following(n: u64) -> u64 {
    if n == u64::MAX {
        0
    } else {
        (n + 1) as u64
    }
}

/// One task more; a count that is full starts again.
pub open spec fn one_up(n: u32) -> u32 {
    if n == u32::MAX {
        0
    } else {
        (n + 1) as u32
    }
}

/// One task less.
pub open spec fn one_down(n: u32) -> u32 {
    if n == 0 {
        u32::MAX
    } else {
        (n - 1) as u32
    }
}

/// A task is begun. A request that comes again takes the place of the one before.
pub open spec fn begun(t: TasksModel, request_id: Seq<char>) -> TasksModel {
    TasksModel {
        running: t.running.insert(request_id, t.next),
        active: one_up(t.active),
        next: following(t.next),
    }
}

/// A task is over.
pub open spec fn over(t: TasksModel, request_id: Seq<char>) -> TasksModel {
    TasksModel {
        running: t.running.remove(request_id),
        active: one_down(t.active),
        ..t
    }
}

/// The number of the task for a request.
pub open spec fn number_for(t: TasksModel, request_id: Seq<char>) -> Option<u64> {
    if t.running.dom().contains(request_id) {
        Some(t.running[request_id])
    } else {
        None
    }
}

/// What a message from the gateway asks for.
pub enum Order {
    /// Work on a task, under a number.
    Run(TaskMessage, u64),
    /// Call the task with a number off, if there is one.
    CallOff(Option<u64>),
    /// Nothing.
    KeepAlive,
    /// The gateway does not say such things to a worker.
    Unexpected,
}

pub struct Tasks {
    pub running: StrMap<u64>,
    pub active: u32,
    pub next: u64,
}

impl View for Tasks {
    type V = TasksModel;

    open spec fn view(&self) -> TasksModel {
        TasksModel { running: self.running@, active: self.active, next: self.next }
    }
}

impl Tasks {
    pub open spec fn wf(&self) -> bool {
        self.running.wf()
    }

    pub fn new() -> (r: Tasks)
        ensures
            r.wf(),
            r@ == (TasksModel { running: Map::empty(), active: 0, next: 0 }),
    {
        Tasks { running: StrMap::new(), active: 0, next: 0 }
    }

    /// Begins a task; returns its number.
    pub fn dispatch(&mut self, request_id: &str) -> (r: u64)
        requires
            old(self).wf(),
        ensures
            final(self).wf(),
            final(self)@ == begun(old(self)@, request_id@),
            r == old(self)@.next,
    {
        let number: u64 = self.next;
        self.running.insert(request_id, number);
        self.active = if self.active == u32::MAX {
            0
        } else {
            self.active + 1
        };
        self.next = if number == u64::MAX {
            0
        } else {
            number + 1
        };
        number
    }

    /// Ends a task.
    pub fn finish(&mut self, request_id: &str)
        requires
            old(self).wf(),
        ensures
            final(self).wf(),
            final(self)@ == over(old(self)@, request_id@),
    {
        let _ = self.running.remove(request_id);
        self.active = if self.active == 0 {
            u32::MAX
        } else {
            self.active - 1
        };
    }

    /// The number of the task to call off.
    pub fn cancel(&self, request_id: &str) -> (r: Option<u64>)
        requires
            self.wf(),
        ensures
            r == number_for(self@, request_id@),
    {
        match self.running.get(request_id) {
            Some(n) => Some(*n),
            None => None,
        }
    }

    /// What a message from the gateway asks for.
    pub fn on_message(&mut self, msg: Message) -> (r: Order)
        requires
            old(self).wf(),
        ensures
            final(self).wf(),
            match msg {
                Message::Task(t) => r == Order::Run(t, old(self)@.next) && final(self)@ == begun(
                    old(self)@,
                    t.request_id@,
                ),
                Message::Cancel(c) => r == Order::CallOff(number_for(old(self)@, c.request_id@))
                    && *final(self) == *old(self),
                Message::Ping => r is KeepAlive && *final(self) == *old(self),
                _ => r is Unexpected && *final(self) == *old(self),
            },
    {
        match msg {
            Message::Task(task) => {
                let number: u64 = self.dispatch(task.request_id.as_str());
                Order::Run(task, number)
            },
            Message::Cancel(c) => Order::CallOff(self.cancel(c.request_id.as_str())),
            Message::Ping => Order::KeepAlive,
            _ => Order::Unexpected,
        }
    }
}

// ── Laws ────────────────────────────────────────────────────────────────────

/// A task can be called off from when it is begun until it is over, whatever becomes of others.
pub proof fn begun_task_can_be_called_off(t: TasksModel, request_id: Seq<char>, other: Seq<char>)
    requires
        other != request_id,
    ensures
        number_for(begun(t, request_id), request_id) == Some(t.next),
        number_for(begun(begun(t, request_id), other), request_id) == Some(t.next),
        number_for(over(begun(t, request_id), other), request_id) == Some(t.next),
        number_for(over(begun(t, request_id), request_id), request_id) is None,
{
}

/// A task that is begun and is over leaves no trace but the next number.
pub proof fn finished_task_leaves_no_trace(t: TasksModel, request_id: Seq<char>)
    requires
        !t.running.dom().contains(request_id),
    ensures
        over(begun(t, request_id), request_id) == (TasksModel { next: following(t.next), ..t }),
{
    assert(t.running.insert(request_id, t.next).remove(request_id) =~= t.running);
}

} // verus!
