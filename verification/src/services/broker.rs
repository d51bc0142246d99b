use vstd::prelude::*;
use crate::registry::{
    Registry,
    law_event_reaches_mounted_listeners,
    listeners_at,
    mount_spec,
    mounts_applied,
    mounted_on,
};

verus! {

/// What travels to the broker: a request to mount a listener on a path, or an
/// event published to a path with its arguments.
pub enum Message<S> {
    /// Ask to receive a copy of all traffic to a path.
    Mount(String, S),
    /// Send a string to a path.
    Event(String, String),
}

/// One message that the broker hands to one listener.
pub struct Delivery<'a, S> {
    pub to: &'a S,
    pub message: Message<S>,
}

/// The broker: which listeners are mounted on which path.
pub struct Broker<S> {
    registry: Registry<S>,
}

impl<S> Broker<S> {
    /// A broker on which nothing is mounted.
    pub fn new() -> (r: Self)
        ensures
            r@ == Map::<Seq<char>, Seq<S>>::empty(),
    {
        Broker { registry: Registry::new() }
    }

    /// Registers a listener that will receive all traffic on `path`, after
    /// those already mounted there.
    pub fn mount(&mut self, path: String, listener: S)
        ensures
            final(self)@ == mount_spec(old(self)@, path@, listener),
    {
        self.registry.mount(path, listener);
    }

    /// The messages that forward an event published on `path` with `args`:
    /// one `Event(path, args)` to each listener mounted on `path`, in mount
    /// order; none where nothing is mounted there.
    pub fn deliveries<'a>(&'a self, path: &str, args: &str) -> (out: Vec<Delivery<'a, S>>)
        ensures
            out@.len() == listeners_at(self@, path@).len(),
            forall|k: int|
                #![trigger out@[k]]
                0 <= k < out@.len() ==> {
                    &&& *out@[k].to == listeners_at(self@, path@)[k]
                    &&& out@[k].message matches Message::Event(p, a)
                    &&& p@ == path@
                    &&& a@ == args@
                },
    {
        let targets = self.registry.listeners(path);
        let n = targets.len();
        let mut out: Vec<Delivery<'a, S>> = Vec::new();
        let mut k: usize = 0;
        while k < n
            invariant
                n == targets@.len(),
                targets@.len() == listeners_at(self@, path@).len(),
                forall|j: int| 0 <= j < n ==> *targets@[j] == listeners_at(self@, path@)[j],
                k <= n,
                out@.len() == k,
                forall|j: int|
                    #![trigger out@[j]]
                    0 <= j < k ==> {
                        &&& *out@[j].to == listeners_at(self@, path@)[j]
                        &&& out@[j].message matches Message::Event(p, a)
                        &&& p@ == path@
                        &&& a@ == args@
                    },
            decreases n - k,
        {
            let message = Message::Event(path.to_owned(), args.to_owned());
            out.push(Delivery { to: targets[k], message });
            k = k + 1;
        }
        out
    }
}

/// The table after the broker reads `msg`: a `Mount` adds its listener, an
/// `Event` changes nothing.
pub open spec fn broker_step<S>(m: Map<Seq<char>, Seq<S>>, msg: Message<S>) -> Map<
    Seq<char>,
    Seq<S>,
> {
    match msg {
        Message::Mount(p, l) => mount_spec(m, p@, l),
        Message::Event(_, _) => m,
    }
}

impl<S> Broker<S> {
    /// One step of the broker: a `Mount` registers its listener and sends
    /// nothing; an `Event` leaves the table as it is and is forwarded to each
    /// listener mounted on its path, in mount order.
    pub fn handle<'a>(&'a mut self, msg: Message<S>) -> (out: Vec<Delivery<'a, S>>)
        ensures
            final(self)@ == broker_step(old(self)@, msg),
            match msg {
                Message::Mount(p, l) => out@.len() == 0,
                Message::Event(p, a) => {
                    &&& out@.len() == listeners_at(old(self)@, p@).len()
                    &&& forall|k: int|
                        #![trigger out@[k]]
                        0 <= k < out@.len() ==> {
                            &&& *out@[k].to == listeners_at(old(self)@, p@)[k]
                            &&& out@[k].message matches Message::Event(p2, a2)
                            &&& p2@ == p@
                            &&& a2@ == a@
                        }
                },
            },
    {
        match msg {
            Message::Mount(path, listener) => {
                self.mount(path, listener);
                Vec::new()
            },
            Message::Event(path, args) => self.deliveries(path.as_str(), args.as_str()),
        }
    }
}

impl<S> View for Broker<S> {
    type V = Map<Seq<char>, Seq<S>>;

    closed spec fn view(&self) -> Map<Seq<char>, Seq<S>> {
        self.registry@
    }
}

/// The table after the broker reads each message of `msgs` in turn,
/// starting from `m`.
pub open spec fn broker_run<S>(m: Map<Seq<char>, Seq<S>>, msgs: Seq<Message<S>>) -> Map<
    Seq<char>,
    Seq<S>,
>
    decreases msgs.len(),
{
    if msgs.len() == 0 {
        m
    } else {
        broker_step(broker_run(m, msgs.drop_last()), msgs.last())
    }
}

/// The `(path, listener)` pairs of the `Mount` messages among `msgs`, in
/// order.
pub open spec fn mounts_of<S>(msgs: Seq<Message<S>>) -> Seq<(Seq<char>, S)>
    decreases msgs.len(),
{
    if msgs.len() == 0 {
        Seq::empty()
    } else {
        let prev = mounts_of(msgs.drop_last());
        match msgs.last() {
            Message::Mount(p, l) => prev.push((p@, l)),
            Message::Event(_, _) => prev,
        }
    }
}

/// A run of messages through a broker that started empty leaves the table
/// that its `Mount` messages alone would build.
pub proof fn lemma_run_is_its_mounts<S>(msgs: Seq<Message<S>>)
    ensures
        broker_run(Map::<Seq<char>, Seq<S>>::empty(), msgs) == mounts_applied(
            Map::<Seq<char>, Seq<S>>::empty(),
            mounts_of(msgs),
        ),
    decreases msgs.len(),
{
    if msgs.len() > 0 {
        lemma_run_is_its_mounts(msgs.drop_last());
        match msgs.last() {
            Message::Mount(p, l) => {
                assert(mounts_of(msgs).drop_last() =~= mounts_of(msgs.drop_last()));
            },
            Message::Event(_, _) => {},
        }
    }
}

/// Over a whole run of a broker that started empty: the event `msgs[j]` on
/// path `p` is handed to exactly the listeners that earlier messages mounted
/// on `p`, in the order of their mounting, once for each mount; a `Mount`
/// sends nothing, and mounts on other paths and other events play no part.
pub proof fn law_run_delivers_to_earlier_mounts<S>(msgs: Seq<Message<S>>, j: int)
    requires
        0 <= j < msgs.len(),
    ensures
        msgs[j] matches Message::Event(p, _) ==> listeners_at(
            broker_run(Map::<Seq<char>, Seq<S>>::empty(), msgs.take(j)),
            p@,
        ) == mounted_on(mounts_of(msgs.take(j)), p@),
{
    if let Message::Event(p, _) = msgs[j] {
        lemma_run_is_its_mounts(msgs.take(j));
        law_event_reaches_mounted_listeners(mounts_of(msgs.take(j)), p@);
    }
}

/// How many times `s` occurs in `xs`.
pub open spec fn times_in<S>(xs: Seq<S>, s: S) -> nat
    decreases xs.len(),
{
    if xs.len() == 0 {
        0
    } else {
        times_in(xs.drop_last(), s) + if xs.last() == s {
            1nat
        } else {
            0nat
        }
    }
}

/// How many `Mount` messages among `msgs` put the listener `s` on the path
/// `q`.
pub open spec fn mounts_on<S>(msgs: Seq<Message<S>>, q: Seq<char>, s: S) -> nat
    decreases msgs.len(),
{
    if msgs.len() == 0 {
        0
    } else {
        mounts_on(msgs.drop_last(), q, s) + match msgs.last() {
            Message::Mount(p, l) => if p@ == q && l == s {
                1nat
            } else {
                0nat
            },
            Message::Event(_, _) => 0nat,
        }
    }
}

/// On a broker that started empty, a listener is on a path's list as often
/// as it was mounted there.
pub proof fn lemma_times_mounted<S>(msgs: Seq<Message<S>>, q: Seq<char>, s: S)
    ensures
        times_in(listeners_at(broker_run(Map::<Seq<char>, Seq<S>>::empty(), msgs), q), s)
            == mounts_on(msgs, q, s),
    decreases msgs.len(),
{
    if msgs.len() > 0 {
        lemma_times_mounted(msgs.drop_last(), q, s);
        let m = broker_run(Map::<Seq<char>, Seq<S>>::empty(), msgs.drop_last());
        if let Message::Mount(p, l) = msgs.last() {
            if p@ == q {
                let xs = listeners_at(m, q);
                assert(xs.push(l).drop_last() =~= xs);
            }
        }
    }
}

proof fn lemma_mounted_once_before<S>(msgs: Seq<Message<S>>, i: int, p: Seq<char>, s: S, q: Seq<char>, j: int)
    requires
        0 <= i < msgs.len(),
        msgs[i] matches Message::Mount(p2, l) && p2@ == p && l == s,
        forall|k: int|
            0 <= k < msgs.len() && k != i ==> !(#[trigger] msgs[k] matches Message::Mount(_, l) && l
                == s),
        0 <= j <= msgs.len(),
    ensures
        mounts_on(msgs.take(j), q, s) == if i < j && q == p {
            1nat
        } else {
            0nat
        },
    decreases j,
{
    if j > 0 {
        lemma_mounted_once_before(msgs, i, p, s, q, j - 1);
        assert(msgs.take(j).drop_last() =~= msgs.take(j - 1));
        assert(msgs.take(j).last() == msgs[j - 1]);
    }
}

/// A listener mounted once, on one path, hears each event that comes to that
/// path after its mount exactly once, and no other event: over a run of
/// messages through a broker that started empty, where `msgs[i]` mounts `s`
/// on `p` and no other message mounts `s`, the event `msgs[j]` is handed to
/// `s` once where it is on `p` and comes after `msgs[i]`, and not at all
/// otherwise. (`Mount` messages are handed to no one.)
pub proof fn law_listener_hears_each_later_event_once<S>(
    msgs: Seq<Message<S>>,
    i: int,
    p: Seq<char>,
    s: S,
    j: int,
)
    requires
        0 <= i < msgs.len(),
        msgs[i] matches Message::Mount(p2, l) && p2@ == p && l == s,
        forall|k: int|
            0 <= k < msgs.len() && k != i ==> !(#[trigger] msgs[k] matches Message::Mount(_, l) && l
                == s),
        0 <= j < msgs.len(),
    ensures
        msgs[j] matches Message::Event(q, _) ==> times_in(
            listeners_at(broker_run(Map::<Seq<char>, Seq<S>>::empty(), msgs.take(j)), q@),
            s,
        ) == if i < j && q@ == p {
            1nat
        } else {
            0nat
        },
{
    if let Message::Event(q, _) = msgs[j] {
        lemma_times_mounted(msgs.take(j), q@, s);
        lemma_mounted_once_before(msgs, i, p, s, q@, j);
    }
}

} // verus!

verus! {

/// An event that a service publishes: `args` sent to `path`.
pub struct Outgoing {
    pub path: String,
    pub args: String,
}

} // verus!
