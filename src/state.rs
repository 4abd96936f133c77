use vstd::prelude::*;
use crate::codec::{json_doc, decode_json};

verus! {

/// The layout on display, the last layout known to be good, and session
/// bookkeeping. Each setter replaces its fields whole.
pub struct AppState {
    /// The layout the window should be showing.
    pub current_layout: String,
    /// The last layout that passed validation; the rollback target.
    pub last_good_layout: String,
    /// Whether a card read is in progress.
    pub reading: bool,
    pub endpoint_snapshot: String,
    pub ack_endpoint_snapshot: String,
    pub ack_init_snapshot: bool,
    /// Time of the last heartbeat, in milliseconds since the epoch.
    pub last_hb_millis: i64,
}

/// Whether a text is admitted as a layout: it must be well-formed JSON.
pub open spec fn admissible(t: Seq<char>) -> bool {
    json_doc(t) is Some
}

/// The (current, last good) pair after offering `t`: both become `t` when it
/// is admitted; otherwise the display rolls back to the last good layout.
pub open spec fn after_offer(current: Seq<char>, last_good: Seq<char>, t: Seq<char>) -> (Seq<char>, Seq<char>) {
    if admissible(t) {
        (t, t)
    } else {
        (last_good, last_good)
    }
}

impl AppState {
    /// Through these methods the display never strays from the last good
    /// layout: a refused layout is rolled back at once.
    pub open spec fn wf(&self) -> bool {
        self.current_layout@ == self.last_good_layout@
    }

    /// Only the pair (current, last good) changes.
    pub open spec fn same_session(&self, other: &AppState) -> bool {
        &&& self.reading == other.reading
        &&& self.endpoint_snapshot@ == other.endpoint_snapshot@
        &&& self.ack_endpoint_snapshot@ == other.ack_endpoint_snapshot@
        &&& self.ack_init_snapshot == other.ack_init_snapshot
        &&& self.last_hb_millis == other.last_hb_millis
    }

    /// Only the session fields change.
    pub open spec fn same_layouts(&self, other: &AppState) -> bool {
        &&& self.current_layout@ == other.current_layout@
        &&& self.last_good_layout@ == other.last_good_layout@
    }

    pub fn new(initial_layout: &str) -> (r: AppState)
        ensures
            r.current_layout@ == initial_layout@,
            r.last_good_layout@ == initial_layout@,
            !r.reading,
            r.endpoint_snapshot@ == Seq::<char>::empty(),
            r.ack_endpoint_snapshot@ == Seq::<char>::empty(),
            !r.ack_init_snapshot,
            r.last_hb_millis == 0,
            r.wf(),
    {
        AppState {
            current_layout: initial_layout.to_owned(),
            last_good_layout: initial_layout.to_owned(),
            reading: false,
            endpoint_snapshot: String::new(),
            ack_endpoint_snapshot: String::new(),
            ack_init_snapshot: false,
            last_hb_millis: 0,
        }
    }

    pub fn get_layout(&self) -> (r: String)
        ensures
            r@ == self.current_layout@,
    {
        self.current_layout.clone()
    }

    /// Admits `new_layout` when it is well-formed JSON: it becomes both the
    /// current and the last good layout. Otherwise nothing changes.
    pub fn apply_layout_safely(&mut self, new_layout: &str) -> (r: bool)
        ensures
            r == admissible(new_layout@),
            r ==> final(self).current_layout@ == new_layout@ && final(self).last_good_layout@ == new_layout@,
            !r ==> final(self).same_layouts(old(self)),
            old(self).wf() ==> final(self).wf(),
            final(self).same_session(old(self)),
    {
        if decode_json(new_layout).is_none() {
            return false;
        }
        self.current_layout = new_layout.to_owned();
        self.last_good_layout = new_layout.to_owned();
        true
    }

    /// Puts the last good layout back on display.
    pub fn restore_last_good(&mut self)
        ensures
            final(self).current_layout@ == old(self).last_good_layout@,
            final(self).last_good_layout@ == old(self).last_good_layout@,
            final(self).wf(),
            final(self).same_session(old(self)),
    {
        self.current_layout = self.last_good_layout.clone();
    }

    /// Offers a layout the way every producer does: apply it, roll back when
    /// it is refused, and hand back what is now on display.
    pub fn offer_layout(&mut self, candidate: &str) -> (r: String)
        ensures
            (final(self).current_layout@, final(self).last_good_layout@) == after_offer(
                old(self).current_layout@,
                old(self).last_good_layout@,
                candidate@,
            ),
            r@ == final(self).current_layout@,
            final(self).wf(),
            final(self).same_session(old(self)),
    {
        if self.apply_layout_safely(candidate) {
            candidate.to_owned()
        } else {
            self.restore_last_good();
            self.get_layout()
        }
    }

    pub fn set_reading(&mut self, r: bool)
        ensures
            final(self).reading == r,
            final(self).same_layouts(old(self)),
            final(self).endpoint_snapshot@ == old(self).endpoint_snapshot@,
            final(self).ack_endpoint_snapshot@ == old(self).ack_endpoint_snapshot@,
            final(self).ack_init_snapshot == old(self).ack_init_snapshot,
            final(self).last_hb_millis == old(self).last_hb_millis,
    {
        self.reading = r;
    }

    pub fn get_reading(&self) -> (r: bool)
        ensures
            r == self.reading,
    {
        self.reading
    }

    pub fn set_status(&mut self, zmq: &str, ack: &str, ack_init: bool, last_hb: i64)
        ensures
            final(self).endpoint_snapshot@ == zmq@,
            final(self).ack_endpoint_snapshot@ == ack@,
            final(self).ack_init_snapshot == ack_init,
            final(self).last_hb_millis == last_hb,
            final(self).reading == old(self).reading,
            final(self).same_layouts(old(self)),
    {
        self.endpoint_snapshot = zmq.to_owned();
        self.ack_endpoint_snapshot = ack.to_owned();
        self.ack_init_snapshot = ack_init;
        self.last_hb_millis = last_hb;
    }
}

/// Offering the same admissible layout twice leaves it as both the current and
/// the last good layout, and both offers hand back the same text.
pub proof fn lemma_offer_twice(current: Seq<char>, last_good: Seq<char>, t: Seq<char>)
    requires
        admissible(t),
    ensures
        after_offer(current, last_good, t) == (t, t),
        after_offer(after_offer(current, last_good, t).0, after_offer(current, last_good, t).1, t) == (t, t),
        after_offer(current, last_good, t).0 == after_offer(
            after_offer(current, last_good, t).0,
            after_offer(current, last_good, t).1,
            t,
        ).0,
{
}

/// After an admissible `a` and then a refused `b`, both the current and the
/// last good layout are `a`.
pub proof fn lemma_rollback_keeps_last_good(current: Seq<char>, last_good: Seq<char>, a: Seq<char>, b: Seq<char>)
    requires
        admissible(a),
        !admissible(b),
    ensures
        after_offer(after_offer(current, last_good, a).0, after_offer(current, last_good, a).1, b) == (a, a),
{
}

/// A refused layout changes nothing once the display already shows the last
/// good layout, and rolling back again changes nothing either.
pub proof fn lemma_refused_is_idempotent(good: Seq<char>, b: Seq<char>)
    requires
        !admissible(b),
    ensures
        after_offer(good, good, b) == (good, good),
{
}

} // verus!
