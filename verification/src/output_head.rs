use vstd::prelude::*;

use crate::adaptive_sync::AdaptiveSync;
use crate::adaptive_sync::AdaptiveSyncAvailability;
use crate::output_mode::OutputMode;
use crate::output_mode::find_mode_index;
use crate::output_mode::spec_has_mode;
use crate::output_mode::spec_mode_index_of;
use crate::transform::Transform;

verus! {

/// In-memory mirror of a remote Head object: one logical display output,
/// rebuilt incrementally from streamed events.  `id` is the protocol object
/// identifier; positions are signed pixels; `scale_1000` holds the scale
/// factor in thousandths (`1000` is one); `modes` keeps the advertised
/// modes in arrival order, keyed by their own identifiers; `current_mode`,
/// when set, names an entry of `modes`.
#[derive(Clone, Debug, PartialEq)]
pub struct OutputHead {
    pub id: u64,
    pub adaptive_sync: Option<AdaptiveSync>,
    pub adaptive_sync_support: Option<AdaptiveSyncAvailability>,
    pub current_mode: Option<u64>,
    pub description: String,
    pub enabled: bool,
    pub make: String,
    pub model: String,
    pub modes: Vec<OutputMode>,
    pub name: String,
    pub physical_height: i32,
    pub physical_width: i32,
    pub position_x: i32,
    pub position_y: i32,
    pub scale_1000: i32,
    pub serial_number: String,
    pub transform: Option<Transform>,
    pub mirroring: Option<String>,
    pub xwayland_primary: Option<bool>,
    pub has_extension_head: bool,
}

/// One streamed event for a Head object, already decoded to plain values.
/// Payloads the wire could fill with values this library does not know are
/// carried as `None`.
#[derive(Clone, Debug)]
pub enum HeadEvent {
    Name(String),
    Description(String),
    PhysicalSize(i32, i32),
    /// A new Mode object announced under this head, by its identifier.
    Mode(u64),
    Enabled(i32),
    CurrentMode(u64),
    Position(i32, i32),
    Transform(Option<Transform>),
    /// Base-protocol scale, already converted to thousandths.
    Scale1000(i32),
    Make(String),
    Model(String),
    SerialNumber(String),
    /// Base-protocol adaptive sync: on, off, or an unknown wire value.
    AdaptiveSync(Option<bool>),
    /// The remote side is done with this head; its removal is the owning
    /// model's business, the head itself does not change.
    Finished,
    Unknown,
}

/// One streamed event for the vendor extension's paired head object.
#[derive(Clone, Debug)]
pub enum ExtensionHeadEvent {
    Scale1000(i32),
    Mirroring(Option<String>),
    AdaptiveSyncAvailable(AdaptiveSyncAvailability),
    AdaptiveSyncExt(Option<AdaptiveSync>),
    XwaylandPrimary(i32),
    Unknown,
}

/// One streamed event for a Mode object.
#[derive(Clone, Copy, Debug)]
pub enum ModeEvent {
    Size(i32, i32),
    Refresh(i32),
    Preferred,
    /// The remote side is done with this mode: it leaves its head's map.
    Finished,
    Unknown,
}

/// Two heads that agree on every field, with the held modes compared by
/// contents: what a snapshot preserves.
pub open spec fn spec_head_like(a: OutputHead, b: OutputHead) -> bool {
    &&& a.modes@ == b.modes@
    &&& a == (OutputHead { modes: a.modes, ..b })
}

/// The fresh mode entry a Mode announcement creates.
pub open spec fn spec_new_mode(id: u64) -> OutputMode {
    OutputMode { id, width: 0, height: 0, refresh: 0, preferred: false }
}

/// What a Mode announcement does to the held modes: a mode already known
/// under that identifier is replaced in place by a fresh entry, a new one
/// is appended.
pub open spec fn spec_insert_mode(s: Seq<OutputMode>, id: u64) -> Seq<OutputMode> {
    if spec_has_mode(s, id) {
        s.update(spec_mode_index_of(s, id), spec_new_mode(id))
    } else {
        s.push(spec_new_mode(id))
    }
}

/// What one Mode event does to a single mode entry; the identifier never
/// changes.
pub open spec fn spec_mode_event_step(m: OutputMode, e: ModeEvent) -> OutputMode {
    match e {
        ModeEvent::Size(w, h) => OutputMode { width: w, height: h, ..m },
        ModeEvent::Refresh(r) => OutputMode { refresh: r, ..m },
        ModeEvent::Preferred => OutputMode { preferred: true, ..m },
        ModeEvent::Finished => m,
        ModeEvent::Unknown => m,
    }
}

/// How a head after one Head event relates to the head before it: exactly
/// the named field changes; a Mode announcement registers the new mode's
/// identifier; a CurrentMode event is honoured only when it names a held
/// mode, so the current mode always stays live.
pub open spec fn spec_head_event_rel(h0: OutputHead, h1: OutputHead, e: HeadEvent) -> bool {
    match e {
        HeadEvent::Name(n) => h1 == (OutputHead { name: n, ..h0 }),
        HeadEvent::Description(d) => h1 == (OutputHead { description: d, ..h0 }),
        HeadEvent::PhysicalSize(w, h) => h1 == (OutputHead {
            physical_width: w,
            physical_height: h,
            ..h0
        }),
        HeadEvent::Mode(id) => h1.modes@ == spec_insert_mode(h0.modes@, id) && h1 == (OutputHead {
            modes: h1.modes,
            ..h0
        }),
        HeadEvent::Enabled(e) => h1 == (OutputHead { enabled: e != 0, ..h0 }),
        HeadEvent::CurrentMode(id) => h1 == (OutputHead {
            current_mode: if spec_has_mode(h0.modes@, id) {
                Some(id)
            } else {
                None
            },
            ..h0
        }),
        HeadEvent::Position(x, y) => h1 == (OutputHead { position_x: x, position_y: y, ..h0 }),
        HeadEvent::Transform(t) => h1 == (OutputHead { transform: t, ..h0 }),
        HeadEvent::Scale1000(s) => h1 == (OutputHead { scale_1000: s, ..h0 }),
        HeadEvent::Make(m) => h1 == (OutputHead { make: m, ..h0 }),
        HeadEvent::Model(m) => h1 == (OutputHead { model: m, ..h0 }),
        HeadEvent::SerialNumber(s) => h1 == (OutputHead { serial_number: s, ..h0 }),
        HeadEvent::AdaptiveSync(s) => h1 == (OutputHead {
            adaptive_sync: match s {
                Some(true) => Some(AdaptiveSync::Always),
                Some(false) => Some(AdaptiveSync::Disabled),
                None => None,
            },
            ..h0
        }),
        HeadEvent::Finished => h1 == h0,
        HeadEvent::Unknown => h1 == h0,
    }
}

/// How a head after one extension-head event relates to the head before
/// it: the vendor extension refines the scale to thousandths, reports
/// mirroring, adaptive-sync availability and state, and the
/// Xwayland-primary flag.
pub open spec fn spec_extension_event_rel(
    h0: OutputHead,
    h1: OutputHead,
    e: ExtensionHeadEvent,
) -> bool {
    match e {
        ExtensionHeadEvent::Scale1000(s) => h1 == (OutputHead { scale_1000: s, ..h0 }),
        ExtensionHeadEvent::Mirroring(m) => h1 == (OutputHead { mirroring: m, ..h0 }),
        ExtensionHeadEvent::AdaptiveSyncAvailable(a) => h1 == (OutputHead {
            adaptive_sync_support: Some(a),
            ..h0
        }),
        ExtensionHeadEvent::AdaptiveSyncExt(s) => h1 == (OutputHead { adaptive_sync: s, ..h0 }),
        ExtensionHeadEvent::XwaylandPrimary(s) => h1 == (OutputHead {
            xwayland_primary: Some(s != 0),
            ..h0
        }),
        ExtensionHeadEvent::Unknown => h1 == h0,
    }
}

/// How a head relates to itself after the mode with the given identifier
/// was dropped: the entry leaves the map with the order of the rest kept,
/// and a current-mode reference that pointed at it is cleared, so it never
/// dangles.
pub open spec fn spec_mode_removed_rel(h0: OutputHead, h1: OutputHead, id: u64) -> bool {
    &&& h1.modes@ == if spec_has_mode(h0.modes@, id) {
        h0.modes@.remove(spec_mode_index_of(h0.modes@, id))
    } else {
        h0.modes@
    }
    &&& h1.current_mode == if h0.current_mode == Some(id) {
        None::<u64>
    } else {
        h0.current_mode
    }
    &&& h1 == (OutputHead { modes: h1.modes, current_mode: h1.current_mode, ..h0 })
}

/// How a head after one Mode event (other than Finished) relates to the
/// head before it: the entry with the event's mode identifier is updated
/// in place, or created first if the mode was never announced.
pub open spec fn spec_mode_event_rel(
    h0: OutputHead,
    h1: OutputHead,
    mode_id: u64,
    e: ModeEvent,
) -> bool {
    &&& h1.modes@ == if spec_has_mode(h0.modes@, mode_id) {
        let k = spec_mode_index_of(h0.modes@, mode_id);
        h0.modes@.update(k, spec_mode_event_step(h0.modes@[k], e))
    } else {
        h0.modes@.push(spec_mode_event_step(spec_new_mode(mode_id), e))
    }
    &&& h1 == (OutputHead { modes: h1.modes, ..h0 })
}

impl OutputHead {
    /// Well-formedness: each held mode identifier occurs once, and the
    /// current mode, if set, names a held mode.  Every event keeps this.
    pub open spec fn wf(self) -> bool {
        &&& forall|p: int, q: int|
            0 <= p < q < self.modes@.len() ==> self.modes@[p].id != self.modes@[q].id
        &&& match self.current_mode {
            Some(id) => spec_has_mode(self.modes@, id),
            None => true,
        }
    }

    /// A head first announced: empty fields until its events arrive.
    /// `has_extension_head` records whether the vendor extension's paired
    /// object was requested for it.
    pub fn new(id: u64, has_extension_head: bool) -> (h: OutputHead)
        ensures
            h.wf(),
            h.id == id,
            h.has_extension_head == has_extension_head,
            h.adaptive_sync is None,
            h.adaptive_sync_support is None,
            h.current_mode is None,
            h.description@ == Seq::<char>::empty(),
            !h.enabled,
            h.make@ == Seq::<char>::empty(),
            h.model@ == Seq::<char>::empty(),
            h.modes@ == Seq::<OutputMode>::empty(),
            h.name@ == Seq::<char>::empty(),
            h.physical_height == 0,
            h.physical_width == 0,
            h.position_x == 0,
            h.position_y == 0,
            h.scale_1000 == 1000,
            h.serial_number@ == Seq::<char>::empty(),
            h.transform is None,
            h.mirroring is None,
            h.xwayland_primary is None,
    {
        OutputHead {
            id,
            adaptive_sync: None,
            adaptive_sync_support: None,
            current_mode: None,
            description: String::new(),
            enabled: false,
            make: String::new(),
            model: String::new(),
            modes: Vec::new(),
            name: String::new(),
            physical_height: 0,
            physical_width: 0,
            position_x: 0,
            position_y: 0,
            scale_1000: 1000,
            serial_number: String::new(),
            transform: None,
            mirroring: None,
            xwayland_primary: None,
            has_extension_head,
        }
    }

    /// An exact copy: the snapshot a configuration transaction works on.
    pub fn duplicate(&self) -> (r: OutputHead)
        ensures
            spec_head_like(r, *self),
    {
        let mut modes: Vec<OutputMode> = Vec::new();
        let mut i: usize = 0;
        while i < self.modes.len()
            invariant
                0 <= i <= self.modes@.len(),
                modes@ == self.modes@.take(i as int),
            decreases self.modes@.len() - i,
        {
            modes.push(self.modes[i]);
            proof {
                assert(modes@ == self.modes@.take(i + 1));
            }
            i = i + 1;
        }
        proof {
            assert(modes@ == self.modes@.take(self.modes@.len() as int));
            assert(modes@ =~= self.modes@);
        }
        OutputHead {
            id: self.id,
            adaptive_sync: self.adaptive_sync,
            adaptive_sync_support: self.adaptive_sync_support,
            current_mode: self.current_mode,
            description: self.description.clone(),
            enabled: self.enabled,
            make: self.make.clone(),
            model: self.model.clone(),
            modes,
            name: self.name.clone(),
            physical_height: self.physical_height,
            physical_width: self.physical_width,
            position_x: self.position_x,
            position_y: self.position_y,
            scale_1000: self.scale_1000,
            serial_number: self.serial_number.clone(),
            transform: self.transform,
            mirroring: match &self.mirroring {
                Some(m) => Some(m.clone()),
                None => None,
            },
            xwayland_primary: self.xwayland_primary,
            has_extension_head: self.has_extension_head,
        }
    }

    /// Applies one Head event, as [`spec_head_event_rel`] states.
    pub fn apply_event(&mut self, event: HeadEvent)
        requires
            old(self).wf(),
        ensures
            final(self).wf(),
            spec_head_event_rel(*old(self), *final(self), event),
    {
        match event {
            HeadEvent::Name(n) => {
                self.name = n;
            },
            HeadEvent::Description(d) => {
                self.description = d;
            },
            HeadEvent::PhysicalSize(w, h) => {
                self.physical_width = w;
                self.physical_height = h;
            },
            HeadEvent::Mode(id) => {
                match find_mode_index(&self.modes, id) {
                    Some(k) => {
                        self.modes[k] = OutputMode::new(id);
                        proof {
                            assert(spec_mode_index_of(old(self).modes@, id) == k as int);
                            match old(self).current_mode {
                                Some(cid) => {
                                    let ci = choose|i: int|
                                        0 <= i < old(self).modes@.len() && old(self).modes@[i].id
                                            == cid;
                                    assert(self.modes@[ci].id == cid);
                                    assert(spec_has_mode(self.modes@, cid));
                                },
                                None => {},
                            }
                        }
                    },
                    None => {
                        self.modes.push(OutputMode::new(id));
                        proof {
                            match old(self).current_mode {
                                Some(cid) => {
                                    let ci = choose|i: int|
                                        0 <= i < old(self).modes@.len() && old(self).modes@[i].id
                                            == cid;
                                    assert(self.modes@[ci].id == cid);
                                    assert(spec_has_mode(self.modes@, cid));
                                },
                                None => {},
                            }
                            assert forall|p: int, q: int|
                                0 <= p < q < self.modes@.len() implies self.modes@[p].id
                                != self.modes@[q].id by {
                                if q == self.modes@.len() - 1 {
                                    assert(self.modes@[p] == old(self).modes@[p]);
                                    if old(self).modes@[p].id == id {
                                        assert(spec_has_mode(old(self).modes@, id));
                                    }
                                }
                            }
                        }
                    },
                }
            },
            HeadEvent::Enabled(e) => {
                self.enabled = e != 0;
            },
            HeadEvent::CurrentMode(id) => {
                if find_mode_index(&self.modes, id).is_some() {
                    self.current_mode = Some(id);
                } else {
                    self.current_mode = None;
                }
            },
            HeadEvent::Position(x, y) => {
                self.position_x = x;
                self.position_y = y;
            },
            HeadEvent::Transform(t) => {
                self.transform = t;
            },
            HeadEvent::Scale1000(s) => {
                self.scale_1000 = s;
            },
            HeadEvent::Make(m) => {
                self.make = m;
            },
            HeadEvent::Model(m) => {
                self.model = m;
            },
            HeadEvent::SerialNumber(s) => {
                self.serial_number = s;
            },
            HeadEvent::AdaptiveSync(s) => {
                self.adaptive_sync = match s {
                    Some(true) => Some(AdaptiveSync::Always),
                    Some(false) => Some(AdaptiveSync::Disabled),
                    None => None,
                };
            },
            HeadEvent::Finished => {},
            HeadEvent::Unknown => {},
        }
    }

    /// Applies one extension-head event, as [`spec_extension_event_rel`]
    /// states.
    pub fn apply_extension_event(&mut self, event: ExtensionHeadEvent)
        requires
            old(self).wf(),
        ensures
            final(self).wf(),
            spec_extension_event_rel(*old(self), *final(self), event),
    {
        match event {
            ExtensionHeadEvent::Scale1000(s) => {
                self.scale_1000 = s;
            },
            ExtensionHeadEvent::Mirroring(m) => {
                self.mirroring = m;
            },
            ExtensionHeadEvent::AdaptiveSyncAvailable(a) => {
                self.adaptive_sync_support = Some(a);
            },
            ExtensionHeadEvent::AdaptiveSyncExt(s) => {
                self.adaptive_sync = s;
            },
            ExtensionHeadEvent::XwaylandPrimary(s) => {
                self.xwayland_primary = Some(s != 0);
            },
            ExtensionHeadEvent::Unknown => {},
        }
    }

    /// Applies one Mode event other than Finished, as
    /// [`spec_mode_event_rel`] states; a Finished event goes through
    /// [`OutputHead::remove_mode`] instead.
    pub fn apply_mode_event(&mut self, mode_id: u64, event: ModeEvent)
        requires
            old(self).wf(),
            !(event is Finished),
        ensures
            final(self).wf(),
            spec_mode_event_rel(*old(self), *final(self), mode_id, event),
    {
        match find_mode_index(&self.modes, mode_id) {
            Some(k) => {
                let m = self.modes[k];
                let stepped = match event {
                    ModeEvent::Size(w, h) => OutputMode { width: w, height: h, ..m },
                    ModeEvent::Refresh(r) => OutputMode { refresh: r, ..m },
                    ModeEvent::Preferred => OutputMode { preferred: true, ..m },
                    ModeEvent::Finished => m,
                    ModeEvent::Unknown => m,
                };
                self.modes[k] = stepped;
                proof {
                    assert(spec_mode_index_of(old(self).modes@, mode_id) == k as int);
                    match old(self).current_mode {
                        Some(cid) => {
                            let ci = choose|i: int|
                                0 <= i < old(self).modes@.len() && old(self).modes@[i].id == cid;
                            assert(self.modes@[ci].id == cid);
                            assert(spec_has_mode(self.modes@, cid));
                        },
                        None => {},
                    }
                }
            },
            None => {
                let m = OutputMode::new(mode_id);
                let stepped = match event {
                    ModeEvent::Size(w, h) => OutputMode { width: w, height: h, ..m },
                    ModeEvent::Refresh(r) => OutputMode { refresh: r, ..m },
                    ModeEvent::Preferred => OutputMode { preferred: true, ..m },
                    ModeEvent::Finished => m,
                    ModeEvent::Unknown => m,
                };
                self.modes.push(stepped);
                proof {
                    match old(self).current_mode {
                        Some(cid) => {
                            let ci = choose|i: int|
                                0 <= i < old(self).modes@.len() && old(self).modes@[i].id == cid;
                            assert(self.modes@[ci].id == cid);
                            assert(spec_has_mode(self.modes@, cid));
                        },
                        None => {},
                    }
                    assert forall|p: int, q: int|
                        0 <= p < q < self.modes@.len() implies self.modes@[p].id
                        != self.modes@[q].id by {
                        if q == self.modes@.len() - 1 {
                            assert(self.modes@[p] == old(self).modes@[p]);
                            if old(self).modes@[p].id == mode_id {
                                assert(spec_has_mode(old(self).modes@, mode_id));
                            }
                        }
                    }
                }
            },
        }
    }

    /// Drops the mode with the given identifier, as
    /// [`spec_mode_removed_rel`] states.
    pub fn remove_mode(&mut self, id: u64)
        requires
            old(self).wf(),
        ensures
            final(self).wf(),
            spec_mode_removed_rel(*old(self), *final(self), id),
    {
        match find_mode_index(&self.modes, id) {
            Some(k) => {
                self.modes.remove(k);
                proof {
                    assert(spec_mode_index_of(old(self).modes@, id) == k as int);
                    old(self).modes@.remove_ensures(k as int);
                    assert forall|p: int, q: int|
                        0 <= p < q < self.modes@.len() implies self.modes@[p].id
                        != self.modes@[q].id by {
                        if p < k {
                            assert(self.modes@[p] == old(self).modes@[p]);
                        } else {
                            assert(self.modes@[p] == old(self).modes@[p + 1]);
                        }
                        if q < k {
                            assert(self.modes@[q] == old(self).modes@[q]);
                        } else {
                            assert(self.modes@[q] == old(self).modes@[q + 1]);
                        }
                    }
                }
                let clear = match &self.current_mode {
                    Some(current) => *current == id,
                    None => false,
                };
                if clear {
                    self.current_mode = None;
                } else {
                    proof {
                        match old(self).current_mode {
                            Some(cid) => {
                                assert(spec_has_mode(old(self).modes@, cid));
                                let ci = choose|i: int|
                                    0 <= i < old(self).modes@.len() && old(self).modes@[i].id
                                        == cid;
                                assert(ci != k as int);
                                if ci < k {
                                    assert(self.modes@[ci].id == cid);
                                } else {
                                    assert(self.modes@[ci - 1].id == cid);
                                }
                            },
                            None => {},
                        }
                    }
                }
            },
            None => {},
        }
    }
}

} // verus!
