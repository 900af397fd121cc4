//! Recognising touch screens, and decoding their multitouch evdev input into
//! single-contact touch events.
use vstd::prelude::*;

verus! {

pub const INPUT_EVENT_SIZE: usize = 24;
pub const MAX_TOUCH_SLOTS: usize = 10;
pub const EV_SYN: u16 = 0x00;
pub const EV_ABS: u16 = 0x03;
pub const SYN_REPORT: u16 = 0x00;
pub const SYN_DROPPED: u16 = 0x03;
pub const ABS_MT_SLOT: u16 = 0x2f;
pub const ABS_MT_POSITION_X: u16 = 0x35;
pub const ABS_MT_POSITION_Y: u16 = 0x36;
pub const ABS_MT_TRACKING_ID: u16 = 0x39;

/// A direct-touch input device and the ranges of its two position axes.
#[derive(Clone, Debug)]
pub struct TouchDeviceInfo {
    pub path: String,
    pub name: String,
    pub x_min: i32,
    pub x_max: i32,
    pub y_min: i32,
    pub y_max: i32,
}

#[derive(Clone, Copy, Debug, Eq, PartialEq, Structural)]
pub enum TouchPhase {
    Down,
    Move,
    Up,
}

/// A touch event in the device's own axis units; `x` and `y` still have to be
/// scaled by the device's axis ranges.
#[derive(Clone, Copy, Debug, Eq, PartialEq, Structural)]
pub struct TouchContactEvent {
    pub phase: TouchPhase,
    pub x: i32,
    pub y: i32,
    pub time_msec: u32,
}

/// One multitouch slot.
#[derive(Clone, Copy, Debug, Eq, PartialEq, Structural)]
pub struct ContactSnapshot {
    pub tracking_id: Option<i32>,
    pub x: i32,
    pub y: i32,
}

impl ContactSnapshot {
    pub open spec fn active(self) -> bool {
        self.tracking_id is Some
    }

    pub fn empty() -> (r: Self)
        ensures
            r == (ContactSnapshot { tracking_id: None, x: 0, y: 0 }),
    {
        ContactSnapshot { tracking_id: None, x: 0, y: 0 }
    }

    pub fn is_active(self) -> (r: bool)
        ensures
            r == self.active(),
    {
        self.tracking_id.is_some()
    }
}

pub open spec fn empty_contact() -> ContactSnapshot {
    ContactSnapshot { tracking_id: None, x: 0, y: 0 }
}

/// One raw `input_event`: type, code, value and its time in milliseconds.
#[derive(Clone, Copy, Debug, Eq, PartialEq, Structural)]
pub struct RawTouchEvent {
    pub event_type: u16,
    pub code: u16,
    pub value: i32,
    pub time_msec: u32,
}

/// The abstract state of the slot tracker.
pub struct TouchFrameView {
    pub current_slot: int,
    pub slots: Seq<ContactSnapshot>,
    pub committed_slot: Option<usize>,
    pub committed: ContactSnapshot,
}

/// Tracks the multitouch slots of a device and turns each report into at most one
/// single-contact event: the first active contact, preferring the one reported
/// last.
pub struct TouchFrameState {
    current_slot: usize,
    slots: Vec<ContactSnapshot>,
    committed_slot: Option<usize>,
    committed: ContactSnapshot,
}

impl View for TouchFrameState {
    type V = TouchFrameView;

    closed spec fn view(&self) -> TouchFrameView {
        TouchFrameView {
            current_slot: self.current_slot as int,
            slots: self.slots@,
            committed_slot: self.committed_slot,
            committed: self.committed,
        }
    }
}

pub open spec fn touch_inv(s: TouchFrameView) -> bool {
    &&& s.slots.len() == MAX_TOUCH_SLOTS
    &&& 0 <= s.current_slot < MAX_TOUCH_SLOTS
    &&& s.committed_slot matches Some(k) ==> k < MAX_TOUCH_SLOTS
}

/// Index of the first active slot at index `i` or later.
pub open spec fn first_active_index(slots: Seq<ContactSnapshot>, i: int) -> Option<int>
    decreases slots.len() - i,
{
    if i < 0 || i >= slots.len() {
        None
    } else if slots[i].active() {
        Some(i)
    } else {
        first_active_index(slots, i + 1)
    }
}

/// The contact that a report is about: the slot reported last if it is still
/// active, else the first active slot.
pub open spec fn active_contact_spec(s: TouchFrameView) -> Option<(usize, ContactSnapshot)> {
    match s.committed_slot {
        Some(k) if s.slots[k as int].active() => Some((k, s.slots[k as int])),
        _ => match first_active_index(s.slots, 0) {
            Some(k) => Some((k as usize, s.slots[k])),
            None => None,
        },
    }
}

/// End of a report: compares the contact now with the one reported last and
/// emits `Down`, `Move` or `Up`, or nothing when nothing changed.
pub open spec fn flush_spec(s: TouchFrameView, time_msec: u32) -> (TouchFrameView, Option<TouchContactEvent>) {
    let previous = s.committed;
    let current = active_contact_spec(s);
    let next = TouchFrameView {
        committed_slot: match current {
            Some((k, _)) => Some(k),
            None => None,
        },
        committed: match current {
            Some((_, c)) => c,
            None => empty_contact(),
        },
        ..s
    };
    let event = match current {
        Some((k, c)) => if !previous.active() {
            Some(TouchContactEvent { phase: TouchPhase::Down, x: c.x, y: c.y, time_msec })
        } else if s.committed_slot != Some(k) || previous.x != c.x || previous.y != c.y {
            Some(TouchContactEvent { phase: TouchPhase::Move, x: c.x, y: c.y, time_msec })
        } else {
            None
        },
        None => if previous.active() {
            Some(TouchContactEvent { phase: TouchPhase::Up, x: previous.x, y: previous.y, time_msec })
        } else {
            None
        },
    };
    (next, event)
}

/// One raw event applied to the tracker.
pub open spec fn handle_event_spec(s: TouchFrameView, e: RawTouchEvent) -> (TouchFrameView, Option<TouchContactEvent>) {
    if e.event_type == EV_ABS && e.code == ABS_MT_SLOT {
        if e.value >= 0 {
            (TouchFrameView {
                current_slot: if e.value < MAX_TOUCH_SLOTS - 1 { e.value as int } else { MAX_TOUCH_SLOTS - 1 },
                ..s
            }, None)
        } else {
            (s, None)
        }
    } else if e.event_type == EV_ABS {
        let slot = s.slots[s.current_slot];
        let updated = if e.code == ABS_MT_TRACKING_ID {
            ContactSnapshot { tracking_id: if e.value >= 0 { Some(e.value) } else { None }, ..slot }
        } else if e.code == ABS_MT_POSITION_X {
            ContactSnapshot { x: e.value, ..slot }
        } else if e.code == ABS_MT_POSITION_Y {
            ContactSnapshot { y: e.value, ..slot }
        } else {
            slot
        };
        (TouchFrameView { slots: s.slots.update(s.current_slot, updated), ..s }, None)
    } else if e.event_type == EV_SYN && e.code == SYN_REPORT {
        flush_spec(s, e.time_msec)
    } else if e.event_type == EV_SYN && e.code == SYN_DROPPED {
        match s.committed_slot {
            Some(k) => (TouchFrameView { slots: s.slots.update(k as int, s.committed), ..s }, None),
            None => (s, None),
        }
    } else {
        (s, None)
    }
}

proof fn lemma_first_active_from(slots: Seq<ContactSnapshot>, i: int)
    requires
        0 <= i,
    ensures
        first_active_index(slots, i) matches Some(k) ==> i <= k < slots.len() && slots[k].active(),
    decreases slots.len() - i,
{
    if i < slots.len() && !slots[i].active() {
        lemma_first_active_from(slots, i + 1);
    }
}

/// A report that follows another with no slot change in between emits nothing.
pub proof fn lemma_flush_idempotent(s: TouchFrameView, t1: u32, t2: u32)
    requires
        touch_inv(s),
    ensures
        flush_spec(flush_spec(s, t1).0, t2).1 is None,
        touch_inv(flush_spec(s, t1).0),
{
    lemma_first_active_from(s.slots, 0);
}

/// With no active slot at `i` or later there is no first active slot there.
proof fn lemma_none_active(slots: Seq<ContactSnapshot>, i: int)
    requires
        0 <= i,
        forall|k: int| i <= k < slots.len() ==> !#[trigger] slots[k].active(),
    ensures
        first_active_index(slots, i) is None,
    decreases slots.len() - i,
{
    if i < slots.len() {
        lemma_none_active(slots, i + 1);
    }
}

/// A report that finds no contact on any slot ends the contact reported
/// before: it is lifted (`Up`) where it was last reported, and nothing is
/// reported as touching afterwards.
pub proof fn lemma_lift_reports_last_position(s: TouchFrameView, t: u32)
    requires
        touch_inv(s),
        s.committed.active(),
        forall|k: int| 0 <= k < s.slots.len() ==> !#[trigger] s.slots[k].active(),
    ensures
        flush_spec(s, t).1 == Some(TouchContactEvent { phase: TouchPhase::Up, x: s.committed.x, y: s.committed.y, time_msec: t }),
        !flush_spec(s, t).0.committed.active(),
        flush_spec(s, t).0.committed_slot is None,
{
    lemma_none_active(s.slots, 0);
    if let Some(k) = s.committed_slot {
        assert(!s.slots[k as int].active());
    }
}

/// A report that finds a contact where none was reported before starts a
/// touch: `Down` at the position of an active slot, and that slot's contact
/// becomes the reported one.
pub proof fn lemma_touch_reports_down(s: TouchFrameView, t: u32, j: int)
    requires
        touch_inv(s),
        !s.committed.active(),
        0 <= j < s.slots.len(),
        s.slots[j].active(),
    ensures
        flush_spec(s, t).1 matches Some(e) && e.phase == TouchPhase::Down && e.time_msec == t && exists|k: int|
            0 <= k < s.slots.len() && #[trigger] s.slots[k].active() && e.x == s.slots[k].x && e.y
                == s.slots[k].y && flush_spec(s, t).0.committed == s.slots[k],
{
    lemma_first_active_from(s.slots, 0);
    if first_active_index(s.slots, 0) is None {
        lemma_some_active(s.slots, 0, j);
    }
    match active_contact_spec(s) {
        Some((k, c)) => {
            assert(c == s.slots[k as int]);
            assert(s.slots[k as int].active());
        },
        None => {},
    }
}

/// With an active slot at `j` at or after `i`, some slot there is active.
proof fn lemma_some_active(slots: Seq<ContactSnapshot>, i: int, j: int)
    requires
        0 <= i <= j < slots.len(),
        slots[j].active(),
    ensures
        first_active_index(slots, i) is Some,
    decreases j - i,
{
    if !slots[i].active() {
        lemma_some_active(slots, i + 1, j);
    }
}

/// A reported contact still on its slot is reported again only when it
/// moved: a `Move` to its new position, else nothing.
pub proof fn lemma_contact_moves(s: TouchFrameView, t: u32, k: usize)
    requires
        touch_inv(s),
        s.committed.active(),
        s.committed_slot == Some(k),
        s.slots[k as int].active(),
    ensures
        (s.slots[k as int].x != s.committed.x || s.slots[k as int].y != s.committed.y) ==> flush_spec(s, t).1
            == Some(TouchContactEvent { phase: TouchPhase::Move, x: s.slots[k as int].x, y: s.slots[k as int].y, time_msec: t }),
        (s.slots[k as int].x == s.committed.x && s.slots[k as int].y == s.committed.y) ==> flush_spec(s, t).1 is None,
        flush_spec(s, t).0.committed == s.slots[k as int],
{
}

/// An absolute-axis event about the selected slot changes that slot alone
/// and reports nothing: a position event sets its own coordinate (X sets
/// `x`, Y sets `y`) and leaves the other and the tracking id; a tracking
/// event starts the contact with a non-negative id and lifts it with a
/// negative one. A slot event selects that slot, the last one for larger
/// numbers.
pub proof fn lemma_axis_events_update_the_selected_slot(s: TouchFrameView, value: i32, t: u32)
    requires
        touch_inv(s),
    ensures
        ({
            let c = s.current_slot;
            let old_slot = s.slots[c];
            let ex = RawTouchEvent { event_type: EV_ABS, code: ABS_MT_POSITION_X, value, time_msec: t };
            let ey = RawTouchEvent { event_type: EV_ABS, code: ABS_MT_POSITION_Y, value, time_msec: t };
            let et = RawTouchEvent { event_type: EV_ABS, code: ABS_MT_TRACKING_ID, value, time_msec: t };
            let es = RawTouchEvent { event_type: EV_ABS, code: ABS_MT_SLOT, value, time_msec: t };
            &&& handle_event_spec(s, ex).1 is None
            &&& handle_event_spec(s, ex).0.slots[c].x == value
            &&& handle_event_spec(s, ex).0.slots[c].y == old_slot.y
            &&& handle_event_spec(s, ex).0.slots[c].tracking_id == old_slot.tracking_id
            &&& handle_event_spec(s, ey).1 is None
            &&& handle_event_spec(s, ey).0.slots[c].y == value
            &&& handle_event_spec(s, ey).0.slots[c].x == old_slot.x
            &&& handle_event_spec(s, ey).0.slots[c].tracking_id == old_slot.tracking_id
            &&& handle_event_spec(s, et).1 is None
            &&& (value >= 0 ==> handle_event_spec(s, et).0.slots[c].tracking_id == Some(value))
            &&& (value < 0 ==> !handle_event_spec(s, et).0.slots[c].active())
            &&& handle_event_spec(s, et).0.slots[c].x == old_slot.x
            &&& handle_event_spec(s, et).0.slots[c].y == old_slot.y
            &&& forall|k: int| 0 <= k < s.slots.len() && k != c ==> {
                &&& #[trigger] handle_event_spec(s, ex).0.slots[k] == s.slots[k]
                &&& handle_event_spec(s, ey).0.slots[k] == s.slots[k]
                &&& handle_event_spec(s, et).0.slots[k] == s.slots[k]
            }
            &&& handle_event_spec(s, es).1 is None
            &&& (0 <= value < MAX_TOUCH_SLOTS ==> handle_event_spec(s, es).0.current_slot == value)
            &&& (value >= MAX_TOUCH_SLOTS ==> handle_event_spec(s, es).0.current_slot == MAX_TOUCH_SLOTS - 1)
            &&& (value < 0 ==> handle_event_spec(s, es).0.current_slot == c)
        }),
{
}

/// Every raw event keeps the tracker's invariant.
pub proof fn lemma_handle_event_inv(s: TouchFrameView, e: RawTouchEvent)
    requires
        touch_inv(s),
    ensures
        touch_inv(handle_event_spec(s, e).0),
{
    lemma_first_active_from(s.slots, 0);
}

/// `slots` with slot `slot` replaced by `contact`.
fn with_slot(slots: &Vec<ContactSnapshot>, slot: usize, contact: ContactSnapshot) -> (r: Vec<ContactSnapshot>)
    requires
        slot < slots@.len(),
    ensures
        r@ == slots@.update(slot as int, contact),
{
    let mut out: Vec<ContactSnapshot> = Vec::new();
    let mut i: usize = 0;
    while i < slots.len()
        invariant
            i <= slots@.len(),
            slot < slots@.len(),
            out@ == slots@.update(slot as int, contact).take(i as int),
        decreases slots@.len() - i,
    {
        if i == slot {
            out.push(contact);
        } else {
            out.push(slots[i]);
        }
        assert(out@ =~= slots@.update(slot as int, contact).take(i + 1));
        i = i + 1;
    }
    assert(out@ =~= slots@.update(slot as int, contact));
    out
}

impl TouchFrameState {
    /// The model is always well formed.
    #[verifier::type_invariant]
    closed spec fn wf(self) -> bool {
        touch_inv(self@)
    }

    /// No contacts, slot 0 selected.
    pub fn new() -> (r: Self)
        ensures
            r@.current_slot == 0,
            r@.slots == Seq::new(MAX_TOUCH_SLOTS as nat, |i: int| empty_contact()),
            r@.committed_slot is None,
            r@.committed == empty_contact(),
    {
        let mut slots: Vec<ContactSnapshot> = Vec::new();
        let mut i: usize = 0;
        while i < MAX_TOUCH_SLOTS
            invariant
                0 <= i <= MAX_TOUCH_SLOTS,
                slots@ == Seq::new(i as nat, |k: int| empty_contact()),
            decreases MAX_TOUCH_SLOTS - i,
        {
            slots.push(ContactSnapshot::empty());
            assert(slots@ =~= Seq::new((i + 1) as nat, |k: int| empty_contact()));
            i = i + 1;
        }
        TouchFrameState { current_slot: 0, slots, committed_slot: None, committed: ContactSnapshot::empty() }
    }

    /// Selects the slot that following position events are about.
    pub fn set_current_slot(&mut self, slot: usize)
        requires
            slot < MAX_TOUCH_SLOTS,
        ensures
            final(self)@ == (TouchFrameView { current_slot: slot as int, ..old(self)@ }),
    {
        proof {
            use_type_invariant(&*self);
        }
        self.current_slot = slot;
    }

    /// Overwrites slot `slot`.
    pub fn set_slot(&mut self, slot: usize, contact: ContactSnapshot)
        requires
            slot < MAX_TOUCH_SLOTS,
        ensures
            final(self)@ == (TouchFrameView { slots: old(self)@.slots.update(slot as int, contact), ..old(self)@ }),
    {
        proof {
            use_type_invariant(&*self);
        }
        self.slots = with_slot(&self.slots, slot, contact);
    }

    pub fn slot(&self, slot: usize) -> (r: ContactSnapshot)
        requires
            slot < MAX_TOUCH_SLOTS,
        ensures
            r == self@.slots[slot as int],
    {
        proof {
            use_type_invariant(self);
        }
        self.slots[slot]
    }

    /// The contact a report is about, with its slot.
    pub fn active_contact(&self) -> (r: Option<(usize, ContactSnapshot)>)
        ensures
            r == active_contact_spec(self@),
    {
        proof {
            use_type_invariant(self);
        }
        if let Some(slot) = self.committed_slot {
            let contact = self.slots[slot];
            if contact.is_active() {
                return Some((slot, contact));
            }
        }
        let mut i: usize = 0;
        while i < self.slots.len()
            invariant
                0 <= i <= self.slots.len(),
                first_active_index(self.slots@, 0) == first_active_index(self.slots@, i as int),
                self.committed_slot matches Some(k) ==> !self.slots@[k as int].active(),
            decreases self.slots.len() - i,
        {
            let contact = self.slots[i];
            if contact.is_active() {
                return Some((i, contact));
            }
            i = i + 1;
        }
        None
    }

    /// Ends a report at `time_msec`.
    pub fn flush(&mut self, time_msec: u32) -> (r: Option<TouchContactEvent>)
        ensures
            (final(self)@, r) == flush_spec(old(self)@, time_msec),
            old(self)@.committed.active() && (forall|k: int|
                0 <= k < old(self)@.slots.len() ==> !#[trigger] old(self)@.slots[k].active()) ==> r == Some(
                TouchContactEvent {
                    phase: TouchPhase::Up,
                    x: old(self)@.committed.x,
                    y: old(self)@.committed.y,
                    time_msec,
                },
            ),
    {
        proof {
            use_type_invariant(&*self);
            if old(self)@.committed.active() && (forall|k: int|
                0 <= k < old(self)@.slots.len() ==> !#[trigger] old(self)@.slots[k].active()) {
                lemma_lift_reports_last_position(self@, time_msec);
            }
        }
        proof {
            lemma_flush_idempotent(self@, time_msec, time_msec);
        }
        let previous = self.committed;
        let current = self.active_contact();
        let event = match current {
            Some((slot, contact)) => {
                if !previous.is_active() {
                    Some(TouchContactEvent { phase: TouchPhase::Down, x: contact.x, y: contact.y, time_msec })
                } else if self.committed_slot != Some(slot) || previous.x != contact.x || previous.y != contact.y {
                    Some(TouchContactEvent { phase: TouchPhase::Move, x: contact.x, y: contact.y, time_msec })
                } else {
                    None
                }
            },
            None => {
                if previous.is_active() {
                    Some(TouchContactEvent { phase: TouchPhase::Up, x: previous.x, y: previous.y, time_msec })
                } else {
                    None
                }
            },
        };
        match current {
            Some((slot, contact)) => {
                self.committed_slot = Some(slot);
                self.committed = contact;
            },
            None => {
                self.committed_slot = None;
                self.committed = ContactSnapshot::empty();
            },
        }
        event
    }

    /// Applies one raw event; a completed report may yield a touch event.
    pub fn handle_event(&mut self, event: RawTouchEvent) -> (r: Option<TouchContactEvent>)
        ensures
            (final(self)@, r) == handle_event_spec(old(self)@, event),
    {
        proof {
            use_type_invariant(&*self);
        }
        proof {
            lemma_handle_event_inv(self@, event);
        }
        if event.event_type == EV_ABS && event.code == ABS_MT_SLOT {
            if event.value >= 0 {
                let slot = event.value as usize;
                self.current_slot = if slot < MAX_TOUCH_SLOTS - 1 { slot } else { MAX_TOUCH_SLOTS - 1 };
            }
            None
        } else if event.event_type == EV_ABS {
            let mut slot = self.slots[self.current_slot];
            if event.code == ABS_MT_TRACKING_ID {
                slot.tracking_id = if event.value >= 0 { Some(event.value) } else { None };
            } else if event.code == ABS_MT_POSITION_X {
                slot.x = event.value;
            } else if event.code == ABS_MT_POSITION_Y {
                slot.y = event.value;
            }
            let current = self.current_slot;
            self.slots = with_slot(&self.slots, current, slot);
            None
        } else if event.event_type == EV_SYN && event.code == SYN_REPORT {
            self.flush(event.time_msec)
        } else if event.event_type == EV_SYN && event.code == SYN_DROPPED {
            if let Some(slot) = self.committed_slot {
                let committed = self.committed;
                self.slots = with_slot(&self.slots, slot, committed);
            }
            None
        } else {
            None
        }
    }
}

/// Little-endian unsigned value of `b`.
pub open spec fn le_value(b: Seq<u8>) -> int
    decreases b.len(),
{
    if b.len() == 0 {
        0
    } else {
        b[0] + 256 * le_value(b.drop_first())
    }
}

/// The two's-complement value of an `n`-byte little-endian field.
pub open spec fn le_signed(b: Seq<u8>) -> int {
    let u = le_value(b);
    let half = vstd::arithmetic::power2::pow2((8 * b.len() - 1) as nat);
    if u >= half {
        u - 2 * half
    } else {
        u
    }
}

/// The time stamp of an event in milliseconds: seconds times 1000 plus whole
/// milliseconds of the microseconds (each step saturating at the `i64` range),
/// clamped to the `u32` range.
pub open spec fn event_time_msec(seconds: int, micros: int) -> int {
    let ms = seconds * 1000;
    let ms = if ms > i64::MAX { i64::MAX as int } else if ms < i64::MIN { i64::MIN as int } else { ms };
    let total = ms + micros / 1000;
    let total = if total > i64::MAX { i64::MAX as int } else if total < i64::MIN { i64::MIN as int } else { total };
    if total < 0 { 0 } else if total > u32::MAX { u32::MAX as int } else { total }
}

fn le_u16(b0: u8, b1: u8) -> (r: u16)
    ensures
        r == le_value(seq![b0, b1]),
{
    proof {
        assert(seq![b0, b1].drop_first() =~= seq![b1]);
        assert(seq![b1].drop_first() =~= Seq::<u8>::empty());
        assert(le_value(Seq::<u8>::empty()) == 0);
        assert(le_value(seq![b1]) == b1 as int);
        assert(le_value(seq![b0, b1]) == b0 as int + 256 * (b1 as int));
    }
    b0 as u16 + 256 * (b1 as u16)
}

fn le_u32(b: &[u8], at: usize) -> (r: u32)
    requires
        at + 4 <= b.len(),
    ensures
        r == le_value(b@.subrange(at as int, at + 4)),
{
    let ghost s = b@.subrange(at as int, at + 4);
    proof {
        assert(s.drop_first().drop_first().drop_first().drop_first() =~= Seq::<u8>::empty());
        assert(s[0] == b@[at as int]);
        assert(s.drop_first()[0] == b@[at + 1]);
        assert(s.drop_first().drop_first()[0] == b@[at + 2]);
        assert(s.drop_first().drop_first().drop_first()[0] == b@[at + 3]);
        let s3 = s.drop_first().drop_first().drop_first();
        assert(le_value(s3.drop_first()) == 0);
        assert(le_value(s3) == b@[at + 3] as int);
        assert(le_value(s.drop_first().drop_first()) == b@[at + 2] as int + 256 * le_value(s3));
        assert(le_value(s.drop_first()) == b@[at + 1] as int + 256 * le_value(s.drop_first().drop_first()));
        assert(le_value(s) == b@[at as int] as int + 256 * le_value(s.drop_first()));
    }
    b[at] as u32 + 256 * (b[at + 1] as u32 + 256 * (b[at + 2] as u32 + 256 * (b[at + 3] as u32)))
}

fn le_u64(b: &[u8], at: usize) -> (r: u64)
    requires
        at + 8 <= b.len(),
    ensures
        r == le_value(b@.subrange(at as int, at + 8)),
{
    let lo = le_u32(b, at);
    let hi = le_u32(b, at + 4);
    proof {
        lemma_le_split(b@.subrange(at as int, at + 8));
        assert(b@.subrange(at as int, at + 8).subrange(0, 4) =~= b@.subrange(at as int, at + 4));
        assert(b@.subrange(at as int, at + 8).subrange(4, 8) =~= b@.subrange(at + 4, at + 8));
    }
    lo as u64 + 0x1_0000_0000 * (hi as u64)
}

proof fn lemma_le_bound(b: Seq<u8>)
    ensures
        0 <= le_value(b) < vstd::arithmetic::power2::pow2((8 * b.len()) as nat),
    decreases b.len(),
{
    vstd::arithmetic::power2::lemma2_to64();
    if b.len() > 0 {
        lemma_le_bound(b.drop_first());
        vstd::arithmetic::power2::lemma_pow2_adds(8, (8 * (b.len() - 1)) as nat);
        vstd::arithmetic::power2::lemma2_to64();
    }
}

proof fn lemma_le_concat(a: Seq<u8>, b: Seq<u8>)
    ensures
        le_value(a + b) == le_value(a) + vstd::arithmetic::power2::pow2((8 * a.len()) as nat) * le_value(b),
    decreases a.len(),
{
    vstd::arithmetic::power2::lemma2_to64();
    if a.len() == 0 {
        assert(a + b =~= b);
        assert(le_value(a) == 0);
        assert(vstd::arithmetic::power2::pow2(0) == 1);
        assert(vstd::arithmetic::power2::pow2((8 * a.len()) as nat) == 1);
    } else {
        lemma_le_concat(a.drop_first(), b);
        assert((a + b).drop_first() =~= a.drop_first() + b);
        let p = vstd::arithmetic::power2::pow2((8 * (a.len() - 1)) as nat);
        vstd::arithmetic::power2::lemma_pow2_adds(8, (8 * (a.len() - 1)) as nat);
        assert(vstd::arithmetic::power2::pow2((8 * a.len()) as nat) == 256 * p);
        let x = le_value(a.drop_first());
        let y = le_value(b);
        assert((a + b)[0] == a[0]);
        assert(le_value(a + b) == a[0] + 256 * (x + p * y));
        assert(le_value(a) == a[0] + 256 * x);
        assert(256 * (x + p * y) == 256 * x + (256 * p) * y) by (nonlinear_arith);
        let q = vstd::arithmetic::power2::pow2((8 * a.len()) as nat);
        assert(q * y == (256 * p) * y);
    }
}

proof fn lemma_le_split(b: Seq<u8>)
    requires
        b.len() == 8,
    ensures
        le_value(b) == le_value(b.subrange(0, 4)) + 0x1_0000_0000 * le_value(b.subrange(4, 8)),
{
    vstd::arithmetic::power2::lemma2_to64();
    assert(b =~= b.subrange(0, 4) + b.subrange(4, 8));
    lemma_le_concat(b.subrange(0, 4), b.subrange(4, 8));
}

/// The order in which the bytes of a number are stored.
#[derive(Clone, Copy, Debug, PartialEq, Eq, Structural)]
pub enum ByteOrder {
    /// Least significant byte first.
    Little,
    /// Most significant byte first.
    Big,
}

/// The bytes of a stored number, least significant first.
pub open spec fn lsb_first(b: Seq<u8>, order: ByteOrder) -> Seq<u8> {
    match order {
        ByteOrder::Little => b,
        ByteOrder::Big => b.reverse(),
    }
}

/// Whether `r` is the 24-byte `input_event` `bytes` (64-bit seconds and
/// microseconds, then 16-bit type and code and a 32-bit value) read with
/// every field stored in `order`.
pub open spec fn decodes_as(r: RawTouchEvent, bytes: Seq<u8>, order: ByteOrder) -> bool {
    &&& r.event_type == le_value(lsb_first(bytes.subrange(16, 18), order))
    &&& r.code == le_value(lsb_first(bytes.subrange(18, 20), order))
    &&& r.value == le_signed(lsb_first(bytes.subrange(20, 24), order))
    &&& r.time_msec == event_time_msec(
        le_signed(lsb_first(bytes.subrange(0, 8), order)),
        le_signed(lsb_first(bytes.subrange(8, 16), order)),
    )
}

/// `u16::from_ne_bytes`, which std documents as reading the two bytes in
/// the machine's native byte order: believed to give their little-endian or
/// their big-endian value. Which of the two is the machine's and is left
/// unsaid.
#[verifier::external_body]
fn u16_from_ne_bytes(bytes: [u8; 2]) -> (r: u16)
    ensures
        r == bytes@[0] + 256 * bytes@[1] || r == bytes@[1] + 256 * bytes@[0],
{
    u16::from_ne_bytes(bytes)
}

/// The byte order of the machine this runs on.
fn native_byte_order() -> ByteOrder {
    if u16_from_ne_bytes([1, 0]) == 1 {
        ByteOrder::Little
    } else {
        ByteOrder::Big
    }
}

/// Decodes one 24-byte `input_event` stored in the machine's own byte
/// order, as the kernel writes it; the result is its little-endian or its
/// big-endian reading, whichever order the machine has.
pub fn parse_raw_touch_event(bytes: &[u8; 24]) -> (r: RawTouchEvent)
    ensures
        decodes_as(r, bytes@, ByteOrder::Little) || decodes_as(r, bytes@, ByteOrder::Big),
{
    decode_raw_touch_event(bytes, native_byte_order())
}

/// Decodes one 24-byte `input_event` whose fields are stored in `order`.
pub fn decode_raw_touch_event(bytes: &[u8; 24], order: ByteOrder) -> (r: RawTouchEvent)
    ensures
        decodes_as(r, bytes@, order),
{
    match order {
        ByteOrder::Little => decode_little_endian(bytes),
        ByteOrder::Big => {
            let b = bytes;
            let swapped: [u8; 24] = [
                b[7], b[6], b[5], b[4], b[3], b[2], b[1], b[0],
                b[15], b[14], b[13], b[12], b[11], b[10], b[9], b[8],
                b[17], b[16],
                b[19], b[18],
                b[23], b[22], b[21], b[20],
            ];
            assert(swapped@.subrange(0, 8) =~= bytes@.subrange(0, 8).reverse());
            assert(swapped@.subrange(8, 16) =~= bytes@.subrange(8, 16).reverse());
            assert(swapped@.subrange(16, 18) =~= bytes@.subrange(16, 18).reverse());
            assert(swapped@.subrange(18, 20) =~= bytes@.subrange(18, 20).reverse());
            assert(swapped@.subrange(20, 24) =~= bytes@.subrange(20, 24).reverse());
            decode_little_endian(&swapped)
        },
    }
}

/// Decodes one 24-byte `input_event` whose fields are little-endian.
fn decode_little_endian(bytes: &[u8; 24]) -> (r: RawTouchEvent)
    ensures
        decodes_as(r, bytes@, ByteOrder::Little),
{
    let b: &[u8] = bytes.as_slice();
    let seconds_u = le_u64(b, 0);
    let micros_u = le_u64(b, 8);
    let event_type = le_u16(b[16], b[17]);
    let code = le_u16(b[18], b[19]);
    let value_u = le_u32(b, 20);
    proof {
        assert(bytes@.subrange(16, 18) =~= seq![b@[16], b@[17]]);
        assert(bytes@.subrange(18, 20) =~= seq![b@[18], b@[19]]);
        vstd::arithmetic::power2::lemma2_to64();
        vstd::arithmetic::power2::lemma2_to64_rest();
        assert(bytes@.subrange(20, 24).len() == 4);
        assert(bytes@.subrange(0, 8).len() == 8);
        assert(bytes@.subrange(8, 16).len() == 8);
    }
    let value: i32 = if value_u >= 0x8000_0000 {
        (value_u as i64 - 0x1_0000_0000) as i32
    } else {
        value_u as i32
    };
    let seconds: i64 = if seconds_u >= 0x8000_0000_0000_0000 {
        (seconds_u as i128 - 0x1_0000_0000_0000_0000) as i64
    } else {
        seconds_u as i64
    };
    let micros: i64 = if micros_u >= 0x8000_0000_0000_0000 {
        (micros_u as i128 - 0x1_0000_0000_0000_0000) as i64
    } else {
        micros_u as i64
    };
    let time_msec = event_time_from_parts(seconds, micros);
    RawTouchEvent { event_type, code, value, time_msec }
}

/// Milliseconds of an event time stamp given as seconds and microseconds.
pub fn event_time_from_parts(seconds: i64, micros: i64) -> (r: u32)
    ensures
        r == event_time_msec(seconds as int, micros as int),
{
    let ms_wide: i128 = seconds as i128 * 1000;
    let ms: i128 = if ms_wide > i64::MAX as i128 {
        i64::MAX as i128
    } else if ms_wide < i64::MIN as i128 {
        i64::MIN as i128
    } else {
        ms_wide
    };
    let whole_ms: i128 = if micros >= 0 {
        (micros as u64 / 1000) as i128
    } else {
        let magnitude: u64 = (-(micros as i128)) as u64;
        let up: u64 = (magnitude - 1) / 1000 + 1;
        proof {
            assert(micros as int / 1000 == -(up as int)) by (nonlinear_arith)
                requires
                    micros < 0,
                    magnitude == -micros,
                    up == (magnitude - 1) / 1000 + 1,
            ;
        }
        -(up as i128)
    };
    let total_wide = ms + whole_ms;
    let total: i128 = if total_wide > i64::MAX as i128 {
        i64::MAX as i128
    } else if total_wide < i64::MIN as i128 {
        i64::MIN as i128
    } else {
        total_wide
    };
    if total < 0 {
        0
    } else if total > u32::MAX as i128 {
        u32::MAX
    } else {
        total as u32
    }
}

/// Whether a device file name names an event node (`event*`).
pub fn is_event_file_name(name: &str) -> (r: bool)
    ensures
        r == (name@.len() >= 5 && name@.subrange(0, 5) == "event"@),
{
    let chars = crate::text::chars_of(name);
    proof {
        reveal_strlit("event");
    }
    if chars.len() < 5 {
        return false;
    }
    let r = chars[0] == 'e' && chars[1] == 'v' && chars[2] == 'e' && chars[3] == 'n' && chars[4] == 't';
    proof {
        let lit = "event"@;
        assert(lit.len() == 5);
        assert(lit[0] == 'e' && lit[1] == 'v' && lit[2] == 'e' && lit[3] == 'n' && lit[4] == 't');
        if r {
            assert(name@.subrange(0, 5) =~= lit);
        } else {
            if name@.subrange(0, 5) == lit {
                assert(name@.subrange(0, 5)[0] == chars@[0]);
                assert(name@.subrange(0, 5)[1] == chars@[1]);
                assert(name@.subrange(0, 5)[2] == chars@[2]);
                assert(name@.subrange(0, 5)[3] == chars@[3]);
                assert(name@.subrange(0, 5)[4] == chars@[4]);
            }
        }
    }
    r
}

/// The range `(minimum, maximum)` that the last entry for axis `code` in
/// `axes` gives, if any entry does.
pub open spec fn last_axis_range(axes: Seq<(u16, i32, i32)>, code: u16) -> Option<(i32, i32)>
    decreases axes.len(),
{
    if axes.len() == 0 {
        None
    } else if axes.last().0 == code {
        Some((axes.last().1, axes.last().2))
    } else {
        last_axis_range(axes.drop_last(), code)
    }
}

/// The last range given for axis `code` in `axes`.
fn find_axis_range(axes: &Vec<(u16, i32, i32)>, code: u16) -> (r: Option<(i32, i32)>)
    ensures
        r == last_axis_range(axes@, code),
{
    let mut found: Option<(i32, i32)> = None;
    let mut i: usize = 0;
    while i < axes.len()
        invariant
            i <= axes@.len(),
            found == last_axis_range(axes@.take(i as int), code),
        decreases axes@.len() - i,
    {
        let (axis, minimum, maximum) = axes[i];
        if axis == code {
            found = Some((minimum, maximum));
        }
        assert(axes@.take(i as int + 1).drop_last() =~= axes@.take(i as int));
        i = i + 1;
    }
    assert(axes@.take(axes@.len() as int) =~= axes@);
    found
}

/// A device found at `path` as a touch screen: a direct-input device whose
/// absolute axes (`(code, minimum, maximum)`, in the order the device lists
/// them, when it could list them) include both multitouch position axes.
/// The device keeps its name, or is called `unknown` without one.
pub fn touch_device_info(
    path: String,
    name: Option<String>,
    direct: bool,
    axes: Option<Vec<(u16, i32, i32)>>,
) -> (r: Option<TouchDeviceInfo>)
    ensures
        match axes {
            Some(list) if direct => match (
                last_axis_range(list@, ABS_MT_POSITION_X),
                last_axis_range(list@, ABS_MT_POSITION_Y),
            ) {
                (Some((x_min, x_max)), Some((y_min, y_max))) => r matches Some(info) && info.path
                    == path && info.name@ == (match name {
                    Some(n) => n@,
                    None => "unknown"@,
                }) && info.x_min == x_min && info.x_max == x_max && info.y_min == y_min && info.y_max
                    == y_max,
                _ => r is None,
            },
            _ => r is None,
        },
{
    if !direct {
        return None;
    }
    let list = match axes {
        Some(list) => list,
        None => return None,
    };
    let x = find_axis_range(&list, ABS_MT_POSITION_X);
    let y = find_axis_range(&list, ABS_MT_POSITION_Y);
    match (x, y) {
        (Some((x_min, x_max)), Some((y_min, y_max))) => {
            let name = match name {
                Some(n) => n,
                None => String::from_str("unknown"),
            };
            Some(TouchDeviceInfo { path, name, x_min, x_max, y_min, y_max })
        },
        _ => None,
    }
}

} // verus!
