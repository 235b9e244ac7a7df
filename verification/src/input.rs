//! Input devices and events: device kinds, vendors, event and button kinds,
//! barrel-button actions, the stylus contact state and the bookkeeping of
//! palm rejection.

use vstd::prelude::*;
use crate::text::{owned, same_text};

verus! {

/// Errors that can occur in the input engine.
pub enum InputError {
    InitFailed(String),
    DeviceNotFound(String),
    PermissionDenied(String),
    UnsupportedDevice(String),
    IoError(std::io::Error),
    BackendError(String),
}

/// Type of input device.
#[derive(Debug, Clone, Copy, PartialEq, Eq, Structural, Hash)]
pub enum DeviceType {
    /// Dedicated graphics tablet (e.g. Wacom Intuos).
    Tablet,
    /// Pen display / tablet monitor (e.g. Wacom Cintiq).
    PenDisplay,
    /// Touchscreen with stylus support.
    Touchscreen,
    /// Generic stylus device.
    Stylus,
    /// Mouse (limited support).
    Mouse,
    /// Unknown device type.
    Unknown,
}

/// Known tablet vendors, for automatic configuration.
#[derive(Debug, Clone, Copy, PartialEq, Eq, Structural)]
pub enum TabletVendor {
    Wacom,
    Huion,
    XPPen,
    Gaomon,
    Samsung,
    Microsoft,
    Apple,
    Unknown,
}

/// The vendor a USB vendor id belongs to.
pub open spec fn vendor_of(id: u16) -> TabletVendor {
    if id == 0x056a {
        TabletVendor::Wacom
    } else if id == 0x256c {
        TabletVendor::Huion
    } else if id == 0x28bd {
        TabletVendor::XPPen
    } else if id == 0x256d {
        TabletVendor::Gaomon
    } else if id == 0x04e8 {
        TabletVendor::Samsung
    } else if id == 0x045e {
        TabletVendor::Microsoft
    } else if id == 0x05ac {
        TabletVendor::Apple
    } else {
        TabletVendor::Unknown
    }
}

/// The name shown for a vendor.
pub open spec fn vendor_name(v: TabletVendor) -> Seq<char> {
    match v {
        TabletVendor::Wacom => "Wacom"@,
        TabletVendor::Huion => "Huion"@,
        TabletVendor::XPPen => "XP-Pen"@,
        TabletVendor::Gaomon => "Gaomon"@,
        TabletVendor::Samsung => "Samsung"@,
        TabletVendor::Microsoft => "Microsoft"@,
        TabletVendor::Apple => "Apple"@,
        TabletVendor::Unknown => "Unknown"@,
    }
}

impl TabletVendor {
    /// Identify the vendor from a USB vendor id.
    pub fn from_vendor_id(vendor_id: u16) -> (res: Self)
        ensures
            res == vendor_of(vendor_id),
    {
        match vendor_id {
            0x056a => TabletVendor::Wacom,
            0x256c => TabletVendor::Huion,
            0x28bd => TabletVendor::XPPen,
            0x256d => TabletVendor::Gaomon,
            0x04e8 => TabletVendor::Samsung,
            0x045e => TabletVendor::Microsoft,
            0x05ac => TabletVendor::Apple,
            _ => TabletVendor::Unknown,
        }
    }

    /// The name shown for this vendor.
    pub fn display_name(&self) -> (res: &'static str)
        ensures
            res@ == vendor_name(*self),
    {
        match self {
            TabletVendor::Wacom => "Wacom",
            TabletVendor::Huion => "Huion",
            TabletVendor::XPPen => "XP-Pen",
            TabletVendor::Gaomon => "Gaomon",
            TabletVendor::Samsung => "Samsung",
            TabletVendor::Microsoft => "Microsoft",
            TabletVendor::Apple => "Apple",
            TabletVendor::Unknown => "Unknown",
        }
    }
}

/// Source of an input event.
#[derive(Debug, Clone, Copy, PartialEq, Eq, Structural, Hash)]
pub enum InputSource {
    Stylus,
    Touch,
    Mouse,
    Keyboard,
}

/// Type of input event.
#[derive(Debug, Clone, Copy, PartialEq, Eq, Structural, Hash)]
pub enum InputEventType {
    ProximityIn,
    ProximityOut,
    StylusDown,
    StylusUp,
    StylusMotion,
    ButtonPress,
    ButtonRelease,
    TouchDown,
    TouchUp,
    TouchMotion,
    PinchGesture,
    ScrollGesture,
}

/// Pen/stylus button identifier.
#[derive(Debug, Clone, Copy, PartialEq, Eq, Structural, Hash)]
pub enum PenButton {
    Primary,
    Secondary,
    Tertiary,
    Eraser,
}

/// Action performed when a barrel button is pressed.
#[derive(Debug, Clone, Copy, PartialEq, Eq, Structural, Hash)]
pub enum BarrelAction {
    /// Switch to the eraser tool.
    Eraser,
    /// Right-click context menu.
    RightClick,
    /// Undo the last stroke.
    Undo,
    /// Redo the last stroke.
    Redo,
    /// Toggle between pen and highlighter.
    ToggleHighlighter,
    /// Color picker (sample a color from the canvas).
    ColorPicker,
    /// Pan the canvas.
    PanCanvas,
    /// Custom action (plugin-defined).
    Custom(u32),
    /// No action.
    NoAction,
}


/// The barrel action a button has in the factory configuration: the
/// primary button erases, the secondary one right-clicks, the others do
/// nothing.
pub open spec fn default_barrel_action(b: PenButton) -> BarrelAction {
    match b {
        PenButton::Primary => BarrelAction::Eraser,
        PenButton::Secondary => BarrelAction::RightClick,
        _ => BarrelAction::NoAction,
    }
}

/// The barrel action of a button in the factory configuration.
pub fn factory_barrel_action(b: PenButton) -> (res: BarrelAction)
    ensures
        res == default_barrel_action(b),
{
    match b {
        PenButton::Primary => BarrelAction::Eraser,
        PenButton::Secondary => BarrelAction::RightClick,
        _ => BarrelAction::NoAction,
    }
}

/// Whether the stylus is near the surface and whether it touches it.
#[derive(Debug, Clone, Copy, PartialEq, Eq, Structural)]
pub struct StylusContact {
    pub in_proximity: bool,
    pub in_contact: bool,
}

/// The contact state after an event: entering or leaving proximity lifts
/// the stylus, going down and up set the contact, other events change
/// nothing.
pub open spec fn contact_after(c: StylusContact, t: InputEventType) -> StylusContact {
    match t {
        InputEventType::ProximityIn => StylusContact { in_proximity: true, in_contact: false },
        InputEventType::ProximityOut => StylusContact { in_proximity: false, in_contact: false },
        InputEventType::StylusDown => StylusContact { in_contact: true, ..c },
        InputEventType::StylusUp => StylusContact { in_contact: false, ..c },
        _ => c,
    }
}

impl StylusContact {
    /// Update the contact state for an event of type `t`.
    pub fn apply(&mut self, t: InputEventType)
        ensures
            *final(self) == contact_after(*old(self), t),
    {
        match t {
            InputEventType::ProximityIn => {
                self.in_proximity = true;
                self.in_contact = false;
            },
            InputEventType::ProximityOut => {
                self.in_proximity = false;
                self.in_contact = false;
            },
            InputEventType::StylusDown => {
                self.in_contact = true;
            },
            InputEventType::StylusUp => {
                self.in_contact = false;
            },
            _ => {},
        }
    }
}

/// The texts of a list of strings.
pub open spec fn id_texts(v: Seq<String>) -> Seq<Seq<char>> {
    v.map_values(|x: String| x@)
}

/// The touches being rejected: those that started in an exclusion zone,
/// each listed once, by device identifier.
pub struct RejectedTouches {
    ids: Vec<String>,
}

/// Whether a decision about an event of `source` applies at all: palm
/// rejection is on and the event comes from touch.
pub open spec fn palm_check_applies(enabled: bool, source: InputSource) -> bool {
    enabled && source == InputSource::Touch
}

/// What the rejection rule reads of one event: whether the check applies
/// (palm rejection on and a touch event), whether the event lies in an
/// exclusion zone, the device identifier, and whether it is a touch lift.
pub struct TouchEvent {
    pub applies: bool,
    pub in_zone: bool,
    pub id: Seq<char>,
    pub lifted: bool,
}

/// The rejected touches after one event: a touch in a zone is remembered; a
/// remembered touch that lifts outside every zone is forgotten.
pub open spec fn touches_after(ids: Seq<Seq<char>>, e: TouchEvent) -> Seq<Seq<char>> {
    if !e.applies {
        ids
    } else if e.in_zone {
        if ids.contains(e.id) {
            ids
        } else {
            ids.push(e.id)
        }
    } else if ids.contains(e.id) && e.lifted {
        ids.remove_value(e.id)
    } else {
        ids
    }
}

/// Whether an event is rejected, given the touches rejected before it.
pub open spec fn rejects(ids: Seq<Seq<char>>, e: TouchEvent) -> bool {
    e.applies && (e.in_zone || ids.contains(e.id))
}

/// The rejected touches after a series of events, starting from none.
pub open spec fn touches_after_all(evs: Seq<TouchEvent>) -> Seq<Seq<char>>
    decreases evs.len(),
{
    if evs.len() == 0 {
        Seq::empty()
    } else {
        touches_after(touches_after_all(evs.drop_last()), evs.last())
    }
}

/// The event starts a rejection of touch `id`: it applies and lies in a zone.
pub open spec fn starts_rejection(e: TouchEvent, id: Seq<char>) -> bool {
    e.applies && e.in_zone && e.id == id
}

/// The event ends a rejection of touch `id`: it applies, lies outside every
/// zone and lifts that touch.
pub open spec fn ends_rejection(e: TouchEvent, id: Seq<char>) -> bool {
    e.applies && !e.in_zone && e.lifted && e.id == id
}

/// Touch `id` is remembered after `evs`: some event started its rejection and
/// no later event ended it.
pub open spec fn remembered(evs: Seq<TouchEvent>, id: Seq<char>) -> bool {
    exists|p: int|
        0 <= p < evs.len() && #[trigger] starts_rejection(evs[p], id) && forall|q: int|
            p < q < evs.len() ==> !ends_rejection(#[trigger] evs[q], id)
}

/// Removing a value from a list without repeats leaves exactly the others,
/// still without repeats.
proof fn lemma_remove_value_no_dup(s: Seq<Seq<char>>, x: Seq<char>)
    requires
        s.no_duplicates(),
        s.contains(x),
    ensures
        s.remove_value(x).no_duplicates(),
        forall|y: Seq<char>| #[trigger] s.remove_value(x).contains(y) <==> (s.contains(y) && y != x),
{
    s.index_of_first_ensures(x);
    let i = s.index_of_first(x).unwrap();
    let r = s.remove_value(x);
    assert(r == s.remove(i));
    assert forall|y: Seq<char>| #[trigger] r.contains(y) <==> (s.contains(y) && y != x) by {
        if r.contains(y) {
            let k = choose|k: int| 0 <= k < r.len() && r[k] == y;
            if k < i {
                assert(s[k] == y);
                assert(k != i);
            } else {
                assert(s[k + 1] == y);
                assert(k + 1 != i);
            }
        }
        if s.contains(y) && y != x {
            let k = choose|k: int| 0 <= k < s.len() && s[k] == y;
            assert(k != i);
            if k < i {
                assert(r[k] == y);
            } else {
                assert(r[k - 1] == y);
            }
        }
    }
}

/// After any series of events, starting with no rejected touches, a touch is
/// rejected exactly when an event in a zone started its rejection and no
/// later lift outside the zones ended it; so the next event outside the
/// zones is rejected exactly for such a touch. No touch is listed twice.
pub proof fn lemma_rejection_history(evs: Seq<TouchEvent>, id: Seq<char>)
    ensures
        touches_after_all(evs).no_duplicates(),
        touches_after_all(evs).contains(id) <==> remembered(evs, id),
    decreases evs.len(),
{
    if evs.len() == 0 {
        assert(!remembered(evs, id));
    } else {
        let pre = evs.drop_last();
        let e = evs.last();
        let before = touches_after_all(pre);
        lemma_rejection_history(pre, id);
        lemma_rejection_history(pre, e.id);
        let after = touches_after_all(evs);
        assert(after == touches_after(before, e));
        let n = evs.len() - 1;
        assert(evs[n] == e);
        // the new list has no repeats
        if e.applies && e.in_zone && !before.contains(e.id) {
            assert forall|a: int, b: int| 0 <= a < b < after.len() implies after[a] != after[b] by {
                if b == before.len() {
                    assert(after[a] == before[a]);
                    assert(before.contains(before[a]));
                }
            }
        }
        if e.applies && !e.in_zone && before.contains(e.id) && e.lifted {
            lemma_remove_value_no_dup(before, e.id);
        }
        // membership follows the history
        if starts_rejection(e, id) {
            assert(after.contains(id)) by {
                if !before.contains(id) {
                    assert(after[before.len() as int] == id);
                }
            }
            assert(remembered(evs, id)) by {
                assert(starts_rejection(evs[n], id));
            }
        } else if ends_rejection(e, id) {
            if before.contains(id) {
                lemma_remove_value_no_dup(before, id);
            }
            assert(!after.contains(id));
            assert(!remembered(evs, id)) by {
                if remembered(evs, id) {
                    let p = choose|p: int|
                        0 <= p < evs.len() && #[trigger] starts_rejection(evs[p], id) && forall|
                            q: int,
                        | p < q < evs.len() ==> !ends_rejection(#[trigger] evs[q], id);
                    if p < n {
                        assert(ends_rejection(evs[n], id));
                    }
                }
            }
        } else {
            assert(after.contains(id) <==> before.contains(id)) by {
                if e.applies && e.in_zone && !before.contains(e.id) {
                    if after.contains(id) {
                        let k = choose|k: int| 0 <= k < after.len() && after[k] == id;
                        if k < before.len() {
                            assert(before[k] == id);
                        }
                    }
                    if before.contains(id) {
                        let k = choose|k: int| 0 <= k < before.len() && before[k] == id;
                        assert(after[k] == id);
                    }
                }
                if e.applies && !e.in_zone && before.contains(e.id) && e.lifted {
                    lemma_remove_value_no_dup(before, e.id);
                }
            }
            assert(remembered(evs, id) <==> remembered(pre, id)) by {
                if remembered(evs, id) {
                    let p = choose|p: int|
                        0 <= p < evs.len() && #[trigger] starts_rejection(evs[p], id) && forall|
                            q: int,
                        | p < q < evs.len() ==> !ends_rejection(#[trigger] evs[q], id);
                    assert(p < n);
                    assert(pre[p] == evs[p]);
                    assert forall|q: int| p < q < pre.len() implies !ends_rejection(
                        #[trigger] pre[q],
                        id,
                    ) by {
                        assert(pre[q] == evs[q]);
                    }
                    assert(starts_rejection(pre[p], id));
                }
                if remembered(pre, id) {
                    let p = choose|p: int|
                        0 <= p < pre.len() && #[trigger] starts_rejection(pre[p], id) && forall|
                            q: int,
                        | p < q < pre.len() ==> !ends_rejection(#[trigger] pre[q], id);
                    assert(evs[p] == pre[p]);
                    assert forall|q: int| p < q < evs.len() implies !ends_rejection(
                        #[trigger] evs[q],
                        id,
                    ) by {
                        if q < n {
                            assert(pre[q] == evs[q]);
                        }
                    }
                    assert(starts_rejection(evs[p], id));
                }
            }
        }
    }
}

impl RejectedTouches {
    /// The identifiers of the rejected touches, in the order they were first
    /// rejected.
    pub closed spec fn ids(&self) -> Seq<Seq<char>> {
        id_texts(self.ids@)
    }

    /// No identifier is listed twice.
    pub open spec fn wf(&self) -> bool {
        self.ids().no_duplicates()
    }

    /// No touch is rejected.
    pub fn new() -> (res: Self)
        ensures
            res.wf(),
            res.ids() == Seq::<Seq<char>>::empty(),
    {
        let res = RejectedTouches { ids: Vec::new() };
        assert(res.ids() =~= Seq::<Seq<char>>::empty());
        res
    }

    /// The position of `id` in the list, if it is there.
    fn position(&self, id: &str) -> (res: Option<usize>)
        ensures
            match res {
                Some(i) => i < self.ids().len() && self.ids()[i as int] == id@,
                None => !self.ids().contains(id@),
            },
    {
        let mut i: usize = 0;
        while i < self.ids.len()
            invariant
                i <= self.ids@.len(),
                forall|k: int| 0 <= k < i ==> self.ids@[k]@ != id@,
            decreases self.ids@.len() - i,
        {
            if same_text(self.ids[i].as_str(), id) {
                return Some(i);
            }
            i = i + 1;
        }
        proof {
            if self.ids().contains(id@) {
                let k = choose|k: int| 0 <= k < self.ids().len() && self.ids()[k] == id@;
                assert(self.ids@[k]@ == id@);
            }
        }
        None
    }

    /// Whether the touch `id` is being rejected.
    pub fn contains(&self, id: &str) -> (res: bool)
        ensures
            res == self.ids().contains(id@),
    {
        self.position(id).is_some()
    }

    /// Decide whether to reject an event from device `id`, given whether
    /// palm rejection is on, where the event comes from, whether it lies in
    /// an exclusion zone and its type. A touch in a zone is rejected and
    /// remembered; a remembered touch stays rejected until it lifts, when
    /// it is forgotten.
    pub fn should_reject(
        &mut self,
        enabled: bool,
        source: InputSource,
        in_zone: bool,
        id: &str,
        event_type: InputEventType,
    ) -> (res: bool)
        requires
            old(self).wf(),
        ensures
            final(self).wf(),
            final(self).ids() == touches_after(
                old(self).ids(),
                (TouchEvent {
                    applies: palm_check_applies(enabled, source),
                    in_zone,
                    id: id@,
                    lifted: event_type == InputEventType::TouchUp,
                }),
            ),
            res == rejects(
                old(self).ids(),
                (TouchEvent {
                    applies: palm_check_applies(enabled, source),
                    in_zone,
                    id: id@,
                    lifted: event_type == InputEventType::TouchUp,
                }),
            ),
            !palm_check_applies(enabled, source) ==> !res && final(self).ids() == old(self).ids(),
            palm_check_applies(enabled, source) && in_zone ==> {
                &&& res
                &&& final(self).ids() == if old(self).ids().contains(id@) {
                    old(self).ids()
                } else {
                    old(self).ids().push(id@)
                }
            },
            palm_check_applies(enabled, source) && !in_zone ==> {
                &&& res == old(self).ids().contains(id@)
                &&& final(self).ids() == if old(self).ids().contains(id@) && event_type
                    == InputEventType::TouchUp {
                    old(self).ids().remove_value(id@)
                } else {
                    old(self).ids()
                }
            },
    {
        if !enabled || source != InputSource::Touch {
            return false;
        }
        let pos = self.position(id);
        if in_zone {
            if pos.is_none() {
                self.ids.push(owned(id));
                assert(self.ids() =~= old(self).ids().push(id@));
            }
            return true;
        }
        match pos {
            Some(i) => {
                if event_type == InputEventType::TouchUp {
                    self.ids.remove(i);
                    proof {
                        let o = old(self).ids();
                        o.index_of_first_ensures(id@);
                        assert(o.index_of_first(id@) == Some(i as int));
                        assert(self.ids() =~= o.remove(i as int));
                        assert(self.ids().no_duplicates());
                    }
                }
                true
            },
            None => false,
        }
    }
}

} // verus!
