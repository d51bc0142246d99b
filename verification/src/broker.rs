use vstd::prelude::*;
use crate::registry::{
    Registry,
    law_event_reaches_mounted_listeners,
    listeners_at,
    mount_spec,
    mounts_applied,
    mounted_on,
};

verus! {

/// What travels to the topic broker of the first design. `F` is the frame
/// buffer that `Share` carries.
pub enum Message<S, F> {
    /// Ask to receive a copy of all traffic to a topic.
    Observe(String, S),
    /// Send a spawn command to a topic.
    Spawn(String, String),
    /// Send a string to a topic.
    Post(String, String),
    /// Send a frame buffer to a topic.
    Share(String, F),
}

/// One message that the broker hands to one observer.
pub struct Delivery<'a, S, F> {
    pub to: &'a S,
    pub message: Message<S, F>,
}

/// Whether `m` is a copy of `msg` as the broker forwards it: the same
/// variant, topic and text, or for `Share` a clone of the same frame buffer
/// handle.
pub open spec fn forwarded_copy<S, F: Clone>(msg: Message<S, F>, m: Message<S, F>) -> bool {
    match msg {
        Message::Spawn(t, p) => m matches Message::Spawn(t2, p2) && t2@ == t@ && p2@ == p@,
        Message::Post(t, p) => m matches Message::Post(t2, p2) && t2@ == t@ && p2@ == p@,
        Message::Share(t, b) => m matches Message::Share(t2, b2) && t2@ == t@ && cloned(b, b2),
        Message::Observe(_, _) => false,
    }
}

/// The topic a message is sent to, unless it asks to observe.
pub open spec fn sent_topic<S, F>(msg: Message<S, F>) -> Option<Seq<char>> {
    match msg {
        Message::Spawn(t, _) => Some(t@),
        Message::Post(t, _) => Some(t@),
        Message::Share(t, _) => Some(t@),
        Message::Observe(_, _) => None,
    }
}

/// The observers that a message reaches: those of its topic for `Spawn`,
/// `Post` and `Share`, none for `Observe`.
pub open spec fn recipients<S, F>(m: Map<Seq<char>, Seq<S>>, msg: Message<S, F>) -> Seq<S> {
    match sent_topic(msg) {
        Some(t) => listeners_at(m, t),
        None => Seq::empty(),
    }
}

/// The table after the broker reads `msg`: `Observe` adds its observer, any
/// other message changes nothing.
pub open spec fn topic_step<S, F>(m: Map<Seq<char>, Seq<S>>, msg: Message<S, F>) -> Map<
    Seq<char>,
    Seq<S>,
> {
    match msg {
        Message::Observe(t, o) => mount_spec(m, t@, o),
        _ => m,
    }
}

/// The copy of `msg` that goes to one observer.
fn copy_for_observer<S, F: Clone>(msg: &Message<S, F>) -> (r: Message<S, F>)
    requires
        !(*msg is Observe),
    ensures
        forwarded_copy(*msg, r),
{
    match msg {
        Message::Spawn(t, p) => Message::Spawn(t.clone(), p.clone()),
        Message::Post(t, p) => Message::Post(t.clone(), p.clone()),
        Message::Share(t, b) => Message::Share(t.clone(), b.clone()),
        Message::Observe(_, _) => {
            proof {
                assert(false);
            }
            Message::Spawn(String::new(), String::new())
        },
    }
}

/// The topic broker: which observers watch which topic.
pub struct Broker<S> {
    registry: Registry<S>,
}

impl<S> Broker<S> {
    /// A broker that no one observes.
    pub fn new() -> (r: Self)
        ensures
            r@ == Map::<Seq<char>, Seq<S>>::empty(),
    {
        Broker { registry: Registry::new() }
    }

    /// Adds an observer of `topic`, after those already there.
    pub fn observe(&mut self, topic: String, observer: S)
        ensures
            final(self)@ == mount_spec(old(self)@, topic@, observer),
    {
        self.registry.mount(topic, observer);
    }

    /// The copies of `msg` that the broker sends on: for `Spawn`, `Post` and
    /// `Share`, one copy to each observer of the topic, in the order in which
    /// they came; nothing for `Observe`.
    pub fn deliveries<'a, F: Clone>(&'a self, msg: &Message<S, F>) -> (out: Vec<
        Delivery<'a, S, F>,
    >)
        ensures
            out@.len() == recipients(self@, *msg).len(),
            forall|k: int|
                #![trigger out@[k]]
                0 <= k < out@.len() ==> *out@[k].to == recipients(self@, *msg)[k]
                    && forwarded_copy(*msg, out@[k].message),
    {
        let mut out: Vec<Delivery<'a, S, F>> = Vec::new();
        let topic = match msg {
            Message::Spawn(t, _) => t,
            Message::Post(t, _) => t,
            Message::Share(t, _) => t,
            Message::Observe(_, _) => {
                return out;
            },
        };
        let targets = self.registry.listeners(topic.as_str());
        let n = targets.len();
        let mut k: usize = 0;
        while k < n
            invariant
                n == targets@.len(),
                !(*msg is Observe),
                targets@.len() == recipients(self@, *msg).len(),
                forall|j: int| 0 <= j < n ==> *targets@[j] == recipients(self@, *msg)[j],
                k <= n,
                out@.len() == k,
                forall|j: int|
                    #![trigger out@[j]]
                    0 <= j < k ==> *out@[j].to == recipients(self@, *msg)[j] && forwarded_copy(
                        *msg,
                        out@[j].message,
                    ),
            decreases n - k,
        {
            let message = copy_for_observer(msg);
            out.push(Delivery { to: targets[k], message });
            k = k + 1;
        }
        out
    }

    /// One step of the broker: `Observe` registers its observer and sends
    /// nothing; `Spawn`, `Post` and `Share` leave the table as it is and go,
    /// copied, to each observer of their topic, in the order in which they
    /// came.
    pub fn handle<'a, F: Clone>(&'a mut self, msg: Message<S, F>) -> (out: Vec<Delivery<'a, S, F>>)
        ensures
            final(self)@ == topic_step(old(self)@, msg),
            out@.len() == recipients(old(self)@, msg).len(),
            forall|k: int|
                #![trigger out@[k]]
                0 <= k < out@.len() ==> *out@[k].to == recipients(old(self)@, msg)[k]
                    && forwarded_copy(msg, out@[k].message),
    {
        match msg {
            Message::Observe(topic, observer) => {
                self.observe(topic, observer);
                Vec::new()
            },
            other => self.deliveries(&other),
        }
    }
}

impl<S> View for Broker<S> {
    type V = Map<Seq<char>, Seq<S>>;

    closed spec fn view(&self) -> Map<Seq<char>, Seq<S>> {
        self.registry@
    }
}

/// The table after the broker reads each message of `msgs` in turn,
/// starting from `m`.
pub open spec fn topic_run<S, F>(m: Map<Seq<char>, Seq<S>>, msgs: Seq<Message<S, F>>) -> Map<
    Seq<char>,
    Seq<S>,
>
    decreases msgs.len(),
{
    if msgs.len() == 0 {
        m
    } else {
        topic_step(topic_run(m, msgs.drop_last()), msgs.last())
    }
}

/// The `(topic, observer)` pairs of the `Observe` messages among `msgs`, in
/// order.
pub open spec fn observes_of<S, F>(msgs: Seq<Message<S, F>>) -> Seq<(Seq<char>, S)>
    decreases msgs.len(),
{
    if msgs.len() == 0 {
        Seq::empty()
    } else {
        let prev = observes_of(msgs.drop_last());
        match msgs.last() {
            Message::Observe(t, o) => prev.push((t@, o)),
            _ => prev,
        }
    }
}

/// A run of messages through a broker that started empty leaves the table
/// that its `Observe` messages alone would build.
pub proof fn lemma_run_is_its_observes<S, F>(msgs: Seq<Message<S, F>>)
    ensures
        topic_run(Map::<Seq<char>, Seq<S>>::empty(), msgs) == mounts_applied(
            Map::<Seq<char>, Seq<S>>::empty(),
            observes_of(msgs),
        ),
    decreases msgs.len(),
{
    if msgs.len() > 0 {
        lemma_run_is_its_observes(msgs.drop_last());
        if let Message::Observe(t, o) = msgs.last() {
            assert(observes_of(msgs).drop_last() =~= observes_of(msgs.drop_last()));
        }
    }
}

/// Over a whole run of a broker that started empty: a `Spawn`, `Post` or
/// `Share` at position `j` goes to exactly the observers that earlier
/// `Observe` messages put on its topic, in the order in which they came, once
/// for each; a topic no one observed gets nothing, and an `Observe` sends
/// nothing.
pub proof fn law_run_reaches_earlier_observers<S, F>(msgs: Seq<Message<S, F>>, j: int)
    requires
        0 <= j < msgs.len(),
    ensures
        recipients(topic_run(Map::<Seq<char>, Seq<S>>::empty(), msgs.take(j)), msgs[j]) == match sent_topic(msgs[j]) {
            Some(t) => mounted_on(observes_of(msgs.take(j)), t),
            None => Seq::<S>::empty(),
        },
{
    if let Some(t) = sent_topic(msgs[j]) {
        lemma_run_is_its_observes(msgs.take(j));
        law_event_reaches_mounted_listeners(observes_of(msgs.take(j)), t);
    }
}

} // verus!
