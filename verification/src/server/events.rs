//! The buffer of events streamed by the companion app: the latest events,
//! oldest first, and the recent toasts among them.

use vstd::prelude::*;
use crate::protocol::pb::EVENT_TOAST_SHOWN;

verus! {

/// How many events the buffer keeps.
pub const EVENT_BUFFER_CAPACITY: usize = 100;

/// An event from the companion app.
#[derive(Debug)]
pub struct Event {
    pub event_id: String,
    /// When it happened, in milliseconds since the Unix epoch.
    pub timestamp: i64,
    /// Its type's wire code.
    pub event_type: i32,
    /// The text of the toast, when the event carries toast data.
    pub toast_text: Option<String>,
}

/// A toast taken from the buffer.
#[derive(Debug)]
pub struct Toast {
    pub text: String,
    pub timestamp: i64,
}

/// The last `n` items of `h` (all of them when there are fewer).
pub open spec fn last_n<T>(h: Seq<T>, n: nat) -> Seq<T> {
    if h.len() <= n {
        h
    } else {
        h.skip(h.len() - n)
    }
}

/// The buffer after an event arrives: the oldest event leaves when the buffer
/// is full, and the new one is appended.
pub open spec fn push_spec(s: Seq<Event>, e: Event) -> Seq<Event> {
    (if s.len() >= EVENT_BUFFER_CAPACITY {
        s.drop_first()
    } else {
        s
    }).push(e)
}

/// The latest events, oldest first; never more than the capacity.
pub struct EventRing {
    events: Vec<Event>,
}

impl View for EventRing {
    type V = Seq<Event>;

    closed spec fn view(&self) -> Seq<Event> {
        self.events@
    }
}

impl EventRing {
    #[verifier::type_invariant]
    spec fn bounded(self) -> bool {
        self.events@.len() <= EVENT_BUFFER_CAPACITY
    }

    /// An empty buffer.
    pub fn new() -> (r: EventRing)
        ensures
            r@ == Seq::<Event>::empty(),
    {
        EventRing { events: Vec::new() }
    }

    /// Number of events held.
    pub fn len(&self) -> (n: usize)
        ensures
            n == self@.len(),
            n <= EVENT_BUFFER_CAPACITY,
    {
        proof {
            use_type_invariant(self);
        }
        self.events.len()
    }

    /// The events held, oldest first.
    pub fn events(&self) -> (r: &Vec<Event>)
        ensures
            r@ == self@,
    {
        &self.events
    }

    /// Add an event, dropping the oldest when the buffer is full.
    pub fn push(&mut self, event: Event)
        ensures
            final(self)@ == push_spec(old(self)@, event),
    {
        proof {
            use_type_invariant(&*self);
        }
        let mut events = Vec::new();
        std::mem::swap(&mut events, &mut self.events);
        if events.len() >= EVENT_BUFFER_CAPACITY {
            events.remove(0);
        }
        events.push(event);
        self.events = events;
    }

    /// The toasts shown at or after `cutoff`, oldest first.
    pub fn recent_toasts(&self, cutoff: i64) -> (r: Vec<Toast>)
        ensures
            toasts_view(r@) == toasts_spec(self@, cutoff),
    {
        let mut r: Vec<Toast> = Vec::new();
        let mut i: usize = 0;
        while i < self.events.len()
            invariant
                i <= self@.len(),
                self@ == self.events@,
                toasts_view(r@) == toasts_spec(self@.take(i as int), cutoff),
            decreases self@.len() - i,
        {
            let e = &self.events[i];
            proof {
                assert(self@.take(i + 1).drop_last() == self@.take(i as int));
                assert(self@.take(i + 1).last() == self@[i as int]);
            }
            if e.event_type == EVENT_TOAST_SHOWN && e.timestamp >= cutoff {
                match &e.toast_text {
                    Some(t) => {
                        let ghost before = r@;
                        r.push(Toast { text: t.clone(), timestamp: e.timestamp });
                        assert(toasts_view(r@) =~= toasts_view(before).push((t@, e.timestamp)));
                    },
                    None => {},
                }
            }
            i = i + 1;
        }
        assert(self@.take(self@.len() as int) == self@);
        r
    }
}

/// Toasts as (text, timestamp).
pub open spec fn toasts_view(v: Seq<Toast>) -> Seq<(Seq<char>, i64)> {
    v.map_values(|t: Toast| (t.text@, t.timestamp))
}

/// The toast events of `s` at or after `cutoff` that carry a text, in order.
pub open spec fn toasts_spec(s: Seq<Event>, cutoff: i64) -> Seq<(Seq<char>, i64)>
    decreases s.len(),
{
    if s.len() == 0 {
        Seq::empty()
    } else {
        let rest = toasts_spec(s.drop_last(), cutoff);
        let e = s.last();
        if e.event_type == EVENT_TOAST_SHOWN && e.timestamp >= cutoff {
            match e.toast_text {
                Some(t) => rest.push((t@, e.timestamp)),
                None => rest,
            }
        } else {
            rest
        }
    }
}

/// What a buffered event contributes to the recent toasts: its text and
/// time when it is a toast with a text, at or after the cutoff.
pub open spec fn recent_toast_of(e: Event, cutoff: i64) -> Option<(Seq<char>, i64)> {
    if e.event_type == EVENT_TOAST_SHOWN && e.timestamp >= cutoff {
        match e.toast_text {
            Some(t) => Some((t@, e.timestamp)),
            None => None,
        }
    } else {
        None
    }
}

/// The recent toasts are every toast event of the buffer that has a text and
/// a time at or after the cutoff, each once, in buffer order, as the buffer
/// filtered and mapped; so there are as many as there are such events.
pub proof fn lemma_recent_toasts_are_all(s: Seq<Event>, cutoff: i64)
    ensures
        toasts_spec(s, cutoff) == s.filter_map(|e: Event| recent_toast_of(e, cutoff)),
        toasts_spec(s, cutoff).len() == s.filter(|e: Event| recent_toast_of(e, cutoff) is Some).len(),
    decreases s.len(),
{
    if s.len() > 0 {
        lemma_recent_toasts_are_all(s.drop_last(), cutoff);
        let rest = toasts_spec(s.drop_last(), cutoff);
        let p = |e: Event| recent_toast_of(e, cutoff) is Some;
        reveal(Seq::filter);
        assert(s.filter(p) == if p(s.last()) {
            s.drop_last().filter(p).push(s.last())
        } else {
            s.drop_last().filter(p)
        });
        match recent_toast_of(s.last(), cutoff) {
            Some(x) => {
                assert(rest.push(x) =~= rest + seq![x]);
            },
            None => {},
        }
    }
}

/// The earliest time a recent toast may have: `since_ms` before `now`.
pub fn toast_cutoff(now: i64, since_ms: i64) -> (r: i64)
    requires
        i64::MIN <= now - since_ms <= i64::MAX,
    ensures
        r == now - since_ms,
{
    now - since_ms
}

/// Whether the cutoff of `toast_cutoff` can be computed.
pub fn cutoff_fits(now: i64, since_ms: i64) -> (r: bool)
    ensures
        r == (i64::MIN <= now - since_ms <= i64::MAX),
{
    now.checked_sub(since_ms).is_some()
}

/// Pushing keeps exactly the latest events: when the buffer held the last
/// events of some history, after a push it holds the last events of that
/// history with the new event added.
pub proof fn lemma_push_keeps_latest(history: Seq<Event>, e: Event)
    ensures
        push_spec(last_n(history, EVENT_BUFFER_CAPACITY as nat), e) == last_n(
            history.push(e),
            EVENT_BUFFER_CAPACITY as nat,
        ),
{
    let cap = EVENT_BUFFER_CAPACITY as nat;
    let w = last_n(history, cap);
    let h2 = history.push(e);
    if history.len() < cap {
        assert(push_spec(w, e) =~= last_n(h2, cap));
    } else {
        assert(w.len() == cap);
        assert(push_spec(w, e) =~= last_n(h2, cap));
    }
}

} // verus!
