use std::collections::HashMap;
use vstd::prelude::*;

use crate::event::CioEvent;
use crate::flag::CioFlag;
use crate::registry::{keyed_by_fd, Registration, Registry};

verus! {

broadcast use vstd::std_specs::hash::group_hash_axioms;

/// How long one poll may block, in microseconds: the longest the loop can
/// take to notice a shutdown request.
pub const POLL_TIMEOUT_USEC: u64 = 100000;

/// The size of the fixed receive buffer.
pub const RECV_BUF_SIZE: usize = 256;

/// What to do about one event.
#[derive(Clone, Copy, Debug, PartialEq, Eq, Structural)]
pub enum Dispatch {
    /// Accept a connection on this listener, then hand it to `add_stream`.
    Accept { listener: i32 },
    /// Receive on this stream into the fixed buffer, then report the count to
    /// `on_received` with `writable`.
    Receive { fd: i32, writable: bool },
    /// Nothing to do.
    Idle,
    /// The token matches neither a listener nor a stream: a consistency fault
    /// to report, not to crash on.
    Unknown { token: i32 },
}

/// What to do after a receive.
pub enum Received<T> {
    /// The peer closed or the receive failed: the stream is out of the tables;
    /// unregister it from the reactor, then drop it.
    Close { fd: i32, stream: T },
    /// Send back the first `len` bytes of the buffer on the same stream.
    Echo { fd: i32, len: usize },
    /// Nothing to send: write readiness was not signalled with the data.
    Idle,
    /// No stream is held under this descriptor.
    Unknown { fd: i32 },
}

/// The driver's state as mathematical values.
pub struct DriverView<T> {
    /// The connection table: each stream under its descriptor.
    pub conns: Map<i32, T>,
    /// The registrations made with the reactor.
    pub registry: Map<i32, Registration>,
    /// The listeners' descriptors.
    pub listeners: Seq<i32>,
    /// Whether shutdown has been observed.
    pub stopped: bool,
}

impl<T> DriverView<T> {
    /// Every stream and every listener is registered under its own descriptor
    /// as token, nothing else is registered, and no descriptor is both.
    pub open spec fn wf(self) -> bool {
        &&& keyed_by_fd(self.registry)
        &&& forall|fd: i32| #[trigger]
            self.conns.contains_key(fd) ==> {
                &&& self.registry.contains_key(fd)
                &&& self.registry[fd].token == fd
                &&& !self.listeners.contains(fd)
            }
        &&& forall|fd: i32| #[trigger]
            self.listeners.contains(fd) ==> self.registry.contains_key(fd)
                && self.registry[fd].token == fd
        &&& forall|fd: i32| #[trigger]
            self.registry.contains_key(fd) ==> self.conns.contains_key(fd)
                || self.listeners.contains(fd)
    }

    /// The state after a listener on `fd` is added.
    pub open spec fn listen(self, fd: i32) -> DriverView<T> {
        DriverView {
            registry: self.registry.insert(fd, Registration { fd, token: fd, flags: 1 }),
            listeners: self.listeners.push(fd),
            ..self
        }
    }

    /// The state after the stream `s` on `fd` is taken in.
    pub open spec fn accept(self, fd: i32, s: T) -> DriverView<T> {
        DriverView {
            conns: self.conns.insert(fd, s),
            registry: self.registry.insert(fd, Registration { fd, token: fd, flags: 3 }),
            ..self
        }
    }

    /// The state after the stream on `fd` is torn down.
    pub open spec fn close(self, fd: i32) -> DriverView<T> {
        DriverView { conns: self.conns.remove(fd), registry: self.registry.remove(fd), ..self }
    }

    /// What an event calls for: listeners are tried first, then streams, by
    /// the event's token.
    pub open spec fn dispatch_of(self, e: CioEvent) -> Dispatch {
        if self.listeners.contains(e.token) {
            if e.readable {
                Dispatch::Accept { listener: e.token }
            } else {
                Dispatch::Idle
            }
        } else if self.conns.contains_key(e.token) {
            if e.readable {
                Dispatch::Receive { fd: e.token, writable: e.writable }
            } else {
                Dispatch::Idle
            }
        } else {
            Dispatch::Unknown { token: e.token }
        }
    }
}

/// The echo driver: the listeners, the connection table and the mirror of the
/// reactor's registrations, and whether shutdown has been observed.
pub struct EchoDriver<T> {
    listeners: Vec<i32>,
    conns: HashMap<i32, T>,
    registry: Registry,
    stopped: bool,
}

impl<T> View for EchoDriver<T> {
    type V = DriverView<T>;

    closed spec fn view(&self) -> DriverView<T> {
        DriverView {
            conns: self.conns@,
            registry: self.registry@,
            listeners: self.listeners@,
            stopped: self.stopped,
        }
    }
}

impl<T> EchoDriver<T> {
    pub fn new() -> (r: EchoDriver<T>)
        ensures
            r@.wf(),
            r@.conns == Map::<i32, T>::empty(),
            r@.registry == Map::<i32, Registration>::empty(),
            r@.listeners == Seq::<i32>::empty(),
            !r@.stopped,
    {
        EchoDriver {
            listeners: Vec::new(),
            conns: HashMap::new(),
            registry: Registry::new(),
            stopped: false,
        }
    }

    /// Whether `fd` is one of the listeners.
    pub fn is_listener(&self, fd: i32) -> (r: bool)
        ensures
            r == self@.listeners.contains(fd),
    {
        let mut i: usize = 0;
        while i < self.listeners.len()
            invariant
                i <= self.listeners@.len(),
                forall|j: int| 0 <= j < i ==> self.listeners@[j] != fd,
            decreases self.listeners@.len() - i,
        {
            if self.listeners[i] == fd {
                assert(self.listeners@[i as int] == fd);
                return true;
            }
            i = i + 1;
        }
        false
    }

    /// Takes in a listener on `fd`; the result is the registration to make
    /// with the reactor: readable only.
    pub fn add_listener(&mut self, fd: i32) -> (r: Registration)
        requires
            old(self)@.wf(),
            !old(self)@.conns.contains_key(fd),
        ensures
            final(self)@.wf(),
            final(self)@ == old(self)@.listen(fd),
            r == (Registration { fd, token: fd, flags: CioFlag::READABLE }),
    {
        self.registry.register(fd, fd, CioFlag::READABLE);
        self.listeners.push(fd);
        let ghost v = self@;
        assert forall|x: i32| #[trigger] v.listeners.contains(x) implies v.registry.contains_key(x)
            && v.registry[x].token == x by {
            if x != fd {
                let j = choose|j: int| 0 <= j < v.listeners.len() && v.listeners[j] == x;
                assert(old(self)@.listeners[j] == x);
                assert(old(self)@.listeners.contains(x));
            }
        }
        assert forall|x: i32| #[trigger] v.registry.contains_key(x) implies v.conns.contains_key(x)
            || v.listeners.contains(x) by {
            if x == fd {
                assert(v.listeners[v.listeners.len() - 1] == fd);
            } else if !v.conns.contains_key(x) {
                let j = choose|j: int|
                    0 <= j < old(self)@.listeners.len() && old(self)@.listeners[j] == x;
                assert(v.listeners[j] == x);
            }
        }
        assert forall|x: i32| #[trigger] v.conns.contains_key(x) implies !v.listeners.contains(x) by {
            if v.listeners.contains(x) {
                let j = choose|j: int| 0 <= j < v.listeners.len() && v.listeners[j] == x;
                if j < old(self)@.listeners.len() {
                    assert(old(self)@.listeners[j] == x);
                }
            }
        }
        Registration { fd, token: fd, flags: CioFlag::READABLE }
    }

    /// Takes in a connected stream on `fd`, be it accepted or opened at
    /// startup; the result is the registration to make with the reactor
    /// (both directions) and the stream that was held under `fd` before, if
    /// any, for the caller to drop.
    pub fn add_stream(&mut self, fd: i32, stream: T) -> (r: (Registration, Option<T>))
        requires
            old(self)@.wf(),
            !old(self)@.listeners.contains(fd),
        ensures
            final(self)@.wf(),
            final(self)@ == old(self)@.accept(fd, stream),
            r.0 == (Registration { fd, token: fd, flags: CioFlag::READABLE | CioFlag::WRITABLE }),
            old(self)@.conns.contains_key(fd) ==> r.1 == Some(old(self)@.conns[fd]),
            !old(self)@.conns.contains_key(fd) ==> r.1 is None,
    {
        let flags = CioFlag::both();
        self.registry.register(fd, fd, flags);
        let displaced = self.conns.insert(fd, stream);
        let ghost v = self@;
        assert forall|x: i32| #[trigger] v.conns.contains_key(x) implies v.registry.contains_key(x)
            && v.registry[x].token == x && !v.listeners.contains(x) by {
            if x != fd {
                assert(old(self)@.conns.contains_key(x));
            }
        }
        assert forall|x: i32| #[trigger] v.listeners.contains(x) implies v.registry.contains_key(x)
            && v.registry[x].token == x by {
            assert(old(self)@.listeners.contains(x));
        }
        assert forall|x: i32| #[trigger] v.registry.contains_key(x) implies v.conns.contains_key(x)
            || v.listeners.contains(x) by {
            if x != fd {
                assert(old(self)@.registry.contains_key(x));
            }
        }
        (Registration { fd, token: fd, flags }, displaced)
    }

    /// Whether shutdown has been observed.
    pub fn is_stopped(&self) -> (r: bool)
        ensures
            r == self@.stopped,
    {
        self.stopped
    }

    /// The start of each turn of the loop: with the shutdown flag's value,
    /// either the timeout of the next poll, or `None` once shutdown is
    /// observed, after which it stays `None`.
    pub fn on_tick(&mut self, shutdown: bool) -> (r: Option<u64>)
        ensures
            final(self)@ == (DriverView { stopped: old(self)@.stopped || shutdown, ..old(self)@ }),
            final(self)@.stopped ==> r is None,
            !final(self)@.stopped ==> r == Some(POLL_TIMEOUT_USEC),
    {
        if shutdown {
            self.stopped = true;
        }
        if self.stopped {
            None
        } else {
            Some(POLL_TIMEOUT_USEC)
        }
    }

    /// The reactor's registrations as this driver made them.
    pub fn registry(&self) -> (r: &Registry)
        ensures
            r@ == self@.registry,
    {
        &self.registry
    }

    /// What the event calls for.
    pub fn dispatch(&self, e: &CioEvent) -> (r: Dispatch)
        ensures
            r == self@.dispatch_of(*e),
    {
        if self.is_listener(e.token) {
            if e.readable {
                Dispatch::Accept { listener: e.token }
            } else {
                Dispatch::Idle
            }
        } else if self.conns.contains_key(&e.token) {
            if e.readable {
                Dispatch::Receive { fd: e.token, writable: e.writable }
            } else {
                Dispatch::Idle
            }
        } else {
            Dispatch::Unknown { token: e.token }
        }
    }

    /// The stream held under `fd`.
    pub fn stream(&self, fd: i32) -> (r: Option<&T>)
        ensures
            self@.conns.contains_key(fd) ==> r == Some(&self@.conns[fd]),
            !self@.conns.contains_key(fd) ==> r is None,
    {
        self.conns.get(&fd)
    }

    /// How many streams are held.
    pub fn connection_count(&self) -> (r: usize)
        ensures
            r == self@.conns.len(),
    {
        self.conns.len()
    }

    /// Takes the stream on `fd` out of the connection table and out of the
    /// registrations and hands it back, for the caller to unregister from the
    /// reactor and drop; `None` where no stream is held under `fd`.
    pub fn remove_stream(&mut self, fd: i32) -> (r: Option<T>)
        requires
            old(self)@.wf(),
        ensures
            final(self)@.wf(),
            old(self)@.conns.contains_key(fd) ==> {
                &&& r == Some(old(self)@.conns[fd])
                &&& final(self)@ == old(self)@.close(fd)
            },
            !old(self)@.conns.contains_key(fd) ==> {
                &&& r is None
                &&& final(self)@ == old(self)@
            },
    {
        if !self.conns.contains_key(&fd) {
            return None;
        }
        let _ = self.registry.unregister(fd);
        self.conns.remove(&fd)
    }

    /// Decides on the result `nr` of a receive on stream `fd`, where
    /// `writable` is whether the same event signalled write readiness. Zero
    /// (orderly close) or a negative count (error) tears the stream down; a
    /// positive count is echoed back whole on the same stream when writable.
    pub fn on_received(&mut self, fd: i32, nr: i32, writable: bool) -> (r: Received<T>)
        requires
            old(self)@.wf(),
            nr <= RECV_BUF_SIZE,
        ensures
            final(self)@.wf(),
            !old(self)@.conns.contains_key(fd) ==> {
                &&& r == Received::<T>::Unknown { fd }
                &&& final(self)@ == old(self)@
            },
            old(self)@.conns.contains_key(fd) && nr <= 0 ==> {
                &&& r == Received::<T>::Close { fd, stream: old(self)@.conns[fd] }
                &&& final(self)@ == old(self)@.close(fd)
            },
            old(self)@.conns.contains_key(fd) && nr > 0 && writable ==> {
                &&& r == Received::<T>::Echo { fd, len: nr as usize }
                &&& final(self)@ == old(self)@
            },
            old(self)@.conns.contains_key(fd) && nr > 0 && !writable ==> {
                &&& r == Received::<T>::Idle
                &&& final(self)@ == old(self)@
            },
    {
        if !self.conns.contains_key(&fd) {
            return Received::Unknown { fd };
        }
        if nr <= 0 {
            match self.remove_stream(fd) {
                Some(stream) => Received::Close { fd, stream },
                None => Received::Unknown { fd },
            }
        } else if writable {
            Received::Echo { fd, len: nr as usize }
        } else {
            Received::Idle
        }
    }
}

/// Tearing a stream down takes its descriptor out of the connection table and
/// out of the registrations, so a second teardown of the same descriptor
/// changes nothing and hands out no stream: each stream is released once.
pub proof fn lemma_teardown_once<T>(v: DriverView<T>, fd: i32)
    ensures
        !v.close(fd).conns.contains_key(fd),
        !v.close(fd).registry.contains_key(fd),
        v.close(fd).close(fd) == v.close(fd),
{
    assert(v.close(fd).close(fd).conns =~= v.close(fd).conns);
    assert(v.close(fd).close(fd).registry =~= v.close(fd).registry);
}

/// A stream taken in on a free descriptor and then torn down leaves the
/// driver as it was: any number of accept, close, teardown rounds leave
/// nothing behind.
pub proof fn lemma_accept_close_restores<T>(v: DriverView<T>, fd: i32, s: T)
    requires
        !v.conns.contains_key(fd),
        !v.registry.contains_key(fd),
    ensures
        v.accept(fd, s).close(fd) == v,
{
    assert(v.accept(fd, s).close(fd).conns =~= v.conns);
    assert(v.accept(fd, s).close(fd).registry =~= v.registry);
}

/// Streams are kept apart: an event is routed to the stream its own token
/// names, and taking in or tearing down stream `a` leaves the entry of any
/// other stream `b` as it was.
pub proof fn lemma_isolation<T>(v: DriverView<T>, a: i32, b: i32, s: T, e: CioEvent)
    requires
        a != b,
    ensures
        v.dispatch_of(e) matches Dispatch::Receive { fd, .. } ==> fd == e.token
            && v.conns.contains_key(fd),
        v.close(a).conns.contains_key(b) == v.conns.contains_key(b),
        v.accept(a, s).conns.contains_key(b) == v.conns.contains_key(b),
        v.conns.contains_key(b) ==> v.close(a).conns[b] == v.conns[b] && v.accept(a, s).conns[b]
            == v.conns[b],
{
}

} // verus!
