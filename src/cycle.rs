use vstd::prelude::*;

use crate::event::CioEvent;
use crate::registry::{Registration, Registry};

verus! {

/// Whether `e` belongs to a live registration: its descriptor is registered
/// and under the token it carries.
pub open spec fn admitted(m: Map<i32, Registration>, e: CioEvent) -> bool {
    m.contains_key(e.fd) && m[e.fd].token == e.token
}

/// The events of one poll cycle, read once each, front to back.
pub struct PollCycle {
    events: Vec<CioEvent>,
    next: usize,
}

impl PollCycle {
    /// The events that the poll reported, in order.
    pub closed spec fn events(&self) -> Seq<CioEvent> {
        self.events@
    }

    /// How many of them have been passed over or handed out.
    pub closed spec fn cursor(&self) -> int {
        self.next as int
    }

    pub open spec fn wf(&self) -> bool {
        0 <= self.cursor() <= self.events().len()
    }

    /// A cycle over what one poll reported.
    pub fn new(events: Vec<CioEvent>) -> (r: PollCycle)
        ensures
            r.wf(),
            r.events() == events@,
            r.cursor() == 0,
    {
        PollCycle { events, next: 0 }
    }

    /// A cycle with nothing in it: what a poll that timed out makes available.
    pub fn empty() -> (r: PollCycle)
        ensures
            r.wf(),
            r.events() == Seq::<CioEvent>::empty(),
            r.cursor() == 0,
    {
        PollCycle { events: Vec::new(), next: 0 }
    }

    /// The next event of the cycle whose descriptor is registered under the
    /// token it carries, passing over those that are not; `None` once the
    /// cycle is drained, which it then stays.
    pub fn next_event(&mut self, reg: &Registry) -> (r: Option<CioEvent>)
        requires
            old(self).wf(),
        ensures
            final(self).wf(),
            final(self).events() == old(self).events(),
            forall|j: int|
                old(self).cursor() <= j < final(self).cursor() - (if r is Some { 1int } else { 0 })
                    ==> !admitted(reg@, #[trigger] old(self).events()[j]),
            match r {
                Some(e) => {
                    &&& old(self).cursor() < final(self).cursor()
                    &&& e == old(self).events()[final(self).cursor() - 1]
                    &&& admitted(reg@, e)
                    &&& exists|fd: i32| #[trigger]
                        reg@.contains_key(fd) && reg@[fd].token == e.token
                },
                None => final(self).cursor() == final(self).events().len(),
            },
    {
        let n = self.events.len();
        while self.next < n
            invariant
                n == self.events@.len(),
                old(self).next <= self.next <= n,
                self.events@ == old(self).events@,
                forall|j: int|
                    old(self).next <= j < self.next ==> !admitted(reg@, #[trigger] self.events@[j]),
            decreases n - self.next,
        {
            let e = self.events[self.next];
            self.next = self.next + 1;
            match reg.lookup(e.fd) {
                Some(found) => {
                    if found.token == e.token {
                        assert(reg@.contains_key(e.fd) && reg@[e.fd].token == e.token);
                        return Some(e);
                    }
                },
                None => {},
            }
        }
        None
    }

    /// Whether every event of the cycle has been read.
    pub fn is_drained(&self) -> (r: bool)
        requires
            self.wf(),
        ensures
            r == (self.cursor() == self.events().len()),
    {
        self.next == self.events.len()
    }
}

} // verus!
