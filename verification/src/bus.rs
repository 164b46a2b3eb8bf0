use vstd::prelude::*;

verus! {

/// Mathematical view of a state-change event.
pub enum EventV {
    NewCode(Seq<char>),
    Exit,
}

/// A state-change event carried by the notification bus: a code was
/// announced (or resent), or the coordinator shut down. `Exit` is terminal
/// for every subscriber.
#[derive(Debug)]
pub enum BroadcastEvent {
    NewCode(String),
    Exit,
}

impl View for BroadcastEvent {
    type V = EventV;

    open spec fn view(&self) -> EventV {
        match self {
            BroadcastEvent::NewCode(code) => EventV::NewCode(code@),
            BroadcastEvent::Exit => EventV::Exit,
        }
    }
}

impl Clone for BroadcastEvent {
    fn clone(&self) -> (r: Self)
        ensures
            r@ == self@,
    {
        match self {
            BroadcastEvent::NewCode(code) => BroadcastEvent::NewCode(code.clone()),
            BroadcastEvent::Exit => BroadcastEvent::Exit,
        }
    }
}

impl BroadcastEvent {
    pub fn new_code(code: &str) -> (r: Self)
        ensures
            r@ == EventV::NewCode(code@),
    {
        BroadcastEvent::NewCode(code.to_owned())
    }

    pub fn exit() -> (r: Self)
        ensures
            r@ == EventV::Exit,
    {
        BroadcastEvent::Exit
    }
}

/// Mathematical view of the bus: every event ever published, in publish
/// order, and the window a lagging subscriber may still read.
pub struct BusV {
    pub log: Seq<EventV>,
    pub capacity: nat,
}

/// Single-publisher, multi-subscriber broadcast. Publishing never blocks
/// and never fails: with no subscriber the event simply goes unread. Each
/// subscriber holds a private cursor into the publish order; one that falls
/// more than `capacity` events behind gets an explicit lag signal instead
/// of silently losing data. The model keeps the full publish log; only the
/// window of the most recent `capacity` events is considered readable.
pub struct Bus {
    pub events: Vec<BroadcastEvent>,
    pub capacity: usize,
}

impl View for Bus {
    type V = BusV;

    open spec fn view(&self) -> BusV {
        BusV {
            log: self.events@.map_values(|e: BroadcastEvent| e@),
            capacity: self.capacity as nat,
        }
    }
}

/// A subscriber's private, ordered position in the publish order.
#[derive(Clone, Copy, Debug)]
pub struct Subscription {
    pub cursor: usize,
}

impl View for Subscription {
    type V = nat;

    open spec fn view(&self) -> nat {
        self.cursor as nat
    }
}

/// What one poll of the bus yields for a subscriber.
#[derive(Debug)]
pub enum RecvOutcome {
    /// The next event in publish order.
    Event(BroadcastEvent),
    /// The subscriber fell behind the retained window; this many events
    /// were skipped and the cursor jumped to the oldest readable one.
    Lagged(usize),
    /// Nothing published past the cursor yet.
    Empty,
}

impl Bus {
    pub fn new(capacity: usize) -> (r: Bus)
        requires
            capacity >= 1,
        ensures
            r@.log == Seq::<EventV>::empty(),
            r@.capacity == capacity,
    {
        let r = Bus { events: Vec::new(), capacity };
        proof {
            assert(r@.log =~= Seq::<EventV>::empty());
        }
        r
    }

    /// Appends an event to the publish order. Never blocks, never fails,
    /// whether or not any subscriber exists.
    pub fn publish(&mut self, event: BroadcastEvent)
        ensures
            final(self)@.log == old(self)@.log.push(event@),
            final(self)@.capacity == old(self)@.capacity,
    {
        let ghost ev = event@;
        self.events.push(event);
        proof {
            assert(self@.log =~= old(self)@.log.push(ev));
        }
    }

    /// A new subscription sees only what is published from this moment on.
    pub fn subscribe(&self) -> (r: Subscription)
        ensures
            r@ == self@.log.len(),
    {
        Subscription { cursor: self.events.len() }
    }

    /// One poll on behalf of a subscriber: the next event when the cursor
    /// is inside the readable window, an explicit lag signal when it fell
    /// out of it, and nothing when the subscriber is caught up.
    pub fn recv(&self, sub: &mut Subscription) -> (r: RecvOutcome)
        requires
            old(sub)@ <= self@.log.len(),
        ensures
            final(sub)@ <= self@.log.len(),
            old(sub)@ <= final(sub)@,
            match r {
                RecvOutcome::Empty => old(sub)@ == self@.log.len() && final(sub)@ == old(sub)@,
                RecvOutcome::Lagged(n) => self@.log.len() - old(sub)@ > self@.capacity && n
                    == self@.log.len() - self@.capacity - old(sub)@ && final(sub)@ == self@.log.len()
                    - self@.capacity,
                RecvOutcome::Event(e) => old(sub)@ < self@.log.len() && self@.log.len() - old(sub)@
                    <= self@.capacity && e@ == self@.log[old(sub)@ as int] && final(sub)@ == old(
                    sub,
                )@ + 1,
            },
    {
        let published = self.events.len();
        if sub.cursor == published {
            return RecvOutcome::Empty;
        }
        if published - sub.cursor > self.capacity {
            let oldest = published - self.capacity;
            let missed = oldest - sub.cursor;
            sub.cursor = oldest;
            return RecvOutcome::Lagged(missed);
        }
        let e = self.events[sub.cursor].clone();
        sub.cursor += 1;
        RecvOutcome::Event(e)
    }
}

/// One interaction in a subscriber's life: the publisher appends an event,
/// or the subscriber polls once.
pub enum BusTurn {
    Publish(EventV),
    Poll,
}

/// The observable state of one subscriber after a sequence of turns run
/// against the poll semantics of `Bus::recv`, for a subscription taken when
/// the log was `log0`: the log, the cursor, the log indexes of the events
/// the subscriber received, and whether it ever lagged.
pub open spec fn run_turns(log0: Seq<EventV>, cap: nat, turns: Seq<BusTurn>) -> (
    Seq<EventV>,
    nat,
    Seq<int>,
    bool,
)
    decreases turns.len(),
{
    if turns.len() == 0 {
        (log0, log0.len(), Seq::<int>::empty(), false)
    } else {
        let p = run_turns(log0, cap, turns.drop_last());
        match turns.last() {
            BusTurn::Publish(e) => (p.0.push(e), p.1, p.2, p.3),
            BusTurn::Poll => {
                if p.1 == p.0.len() {
                    p
                } else if p.0.len() - p.1 > cap {
                    (p.0, (p.0.len() - cap) as nat, p.2, true)
                } else {
                    (p.0, (p.1 + 1) as nat, p.2.push(p.1 as int), p.3)
                }
            },
        }
    }
}

/// A subscriber that subscribes after a past event was published — an
/// `Exit` among them — never receives it: every index it receives lies at
/// or beyond the length the log had at subscription time, the indexes come
/// in strictly increasing order, and a subscriber that never lagged has
/// received exactly the events published after its subscription, in order,
/// up to its cursor.
pub proof fn lemma_subscriber_sees_only_the_future(
    log0: Seq<EventV>,
    cap: nat,
    turns: Seq<BusTurn>,
)
    ensures
        ({
            let r = run_turns(log0, cap, turns);
            &&& log0.len() <= r.1 <= r.0.len()
            &&& forall|i: int| 0 <= i < r.2.len() ==> log0.len() <= #[trigger] r.2[i] < r.1
            &&& forall|i: int, j: int|
                0 <= i < j < r.2.len() ==> #[trigger] r.2[i] < #[trigger] r.2[j]
            &&& !r.3 ==> r.2 == Seq::new((r.1 - log0.len()) as nat, |i: int| log0.len() + i)
        }),
    decreases turns.len(),
{
    if turns.len() == 0 {
        assert(run_turns(log0, cap, turns).2 =~= Seq::new(0, |i: int| log0.len() + i));
    } else {
        lemma_subscriber_sees_only_the_future(log0, cap, turns.drop_last());
        let p = run_turns(log0, cap, turns.drop_last());
        let r = run_turns(log0, cap, turns);
        match turns.last() {
            BusTurn::Publish(_) => {},
            BusTurn::Poll => {
                if p.1 == p.0.len() {
                } else if p.0.len() - p.1 > cap {
                } else {
                    if !r.3 {
                        assert(r.2 =~= Seq::new((r.1 - log0.len()) as nat, |i: int| log0.len() + i));
                    }
                }
            },
        }
    }
}

} // verus!
