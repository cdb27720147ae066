use vstd::prelude::*;

use crate::adaptive_sync::AdaptiveSync;
use crate::adaptive_sync::AdaptiveSyncAvailability;
use crate::adaptive_sync::AdaptiveSyncState;
use crate::model::Model;
use crate::output_head::OutputHead;
use crate::output_mode::OutputMode;
use crate::output_mode::spec_has_mode;
use crate::transform::Transform;

verus! {

/// A mode as the interchange format carries it: a (resolution,
/// refresh-rate) pairing and the preferred flag.
#[derive(Clone, Copy, Debug, PartialEq, Eq)]
pub struct Mode {
    pub size: (u32, u32),
    pub refresh_rate: u32,
    pub preferred: bool,
}

impl Mode {
    /// An empty mode, to be filled from parsed fields.
    pub fn new() -> (m: Mode)
        ensures
            m == (Mode { size: (0, 0), refresh_rate: 0, preferred: false }),
    {
        Mode { size: (0, 0), refresh_rate: 0, preferred: false }
    }
}

impl Default for Mode {
    fn default() -> (m: Mode)
        ensures
            m == (Mode { size: (0, 0), refresh_rate: 0, preferred: false }),
    {
        Mode::new()
    }
}

/// An output as the interchange format carries it.  The scale is held in
/// thousandths; `modes` and `current` index into the owning list's modes.
#[derive(Clone, Debug)]
pub struct Output {
    pub serial_number: String,
    pub name: String,
    pub enabled: bool,
    pub mirroring: Option<String>,
    pub make: Option<String>,
    pub model: String,
    pub physical_width: u32,
    pub physical_height: u32,
    pub position_x: i32,
    pub position_y: i32,
    pub scale_1000: i32,
    pub transform: Option<Transform>,
    pub modes: Vec<usize>,
    pub current: Option<usize>,
    pub adaptive_sync: Option<AdaptiveSyncState>,
    pub adaptive_sync_availability: Option<AdaptiveSyncAvailability>,
    pub xwayland_primary: Option<bool>,
}

impl Output {
    /// An empty output, to be filled from parsed fields.
    pub fn new() -> (o: Output)
        ensures
            o.serial_number@ == Seq::<char>::empty(),
            o.name@ == Seq::<char>::empty(),
            !o.enabled,
            o.mirroring is None,
            o.make is None,
            o.model@ == Seq::<char>::empty(),
            o.physical_width == 0,
            o.physical_height == 0,
            o.position_x == 0,
            o.position_y == 0,
            o.scale_1000 == 1000,
            o.transform is None,
            o.modes@ == Seq::<usize>::empty(),
            o.current is None,
            o.adaptive_sync is None,
            o.adaptive_sync_availability is None,
            o.xwayland_primary is None,
    {
        Output {
            serial_number: String::new(),
            name: String::new(),
            enabled: false,
            mirroring: None,
            make: None,
            model: String::new(),
            physical_width: 0,
            physical_height: 0,
            position_x: 0,
            position_y: 0,
            scale_1000: 1000,
            transform: None,
            modes: Vec::new(),
            current: None,
            adaptive_sync: None,
            adaptive_sync_availability: None,
            xwayland_primary: None,
        }
    }
}

/// A parsed interchange document: outputs and the modes they refer to.
#[derive(Clone, Debug)]
pub struct List {
    pub outputs: Vec<Output>,
    pub modes: Vec<Mode>,
}

impl Default for List {
    fn default() -> (l: List)
        ensures
            l.outputs@ == Seq::<Output>::empty(),
            l.modes@ == Seq::<Mode>::empty(),
    {
        List { outputs: Vec::new(), modes: Vec::new() }
    }
}

/// The tri-state setting an interchange state asks for.
pub open spec fn spec_sync_of_state(s: AdaptiveSyncState) -> AdaptiveSync {
    match s {
        AdaptiveSyncState::Always => AdaptiveSync::Always,
        AdaptiveSyncState::Auto => AdaptiveSync::Automatic,
        AdaptiveSyncState::Disabled => AdaptiveSync::Disabled,
    }
}

/// The head at index `j` is the first the given output addresses: same
/// name, same make (an absent make reads as empty) and same model.
pub open spec fn spec_is_first_addressed(s: Seq<OutputHead>, o: Output, j: int) -> bool {
    &&& 0 <= j < s.len()
    &&& spec_addresses(s[j], o)
    &&& forall|p: int| 0 <= p < j ==> !spec_addresses(#[trigger] s[p], o)
}

/// Whether the given output's identity fields address this head.
pub open spec fn spec_addresses(h: OutputHead, o: Output) -> bool {
    &&& h.name@ == o.name@
    &&& h.make@ == match o.make {
        Some(m) => m@,
        None => Seq::<char>::empty(),
    }
    &&& h.model@ == o.model@
}

/// The mode entry at index `j` is the first whose dimensions equal the
/// imported mode's.
pub open spec fn spec_is_first_sized(s: Seq<OutputMode>, mi: Mode, j: int) -> bool {
    &&& 0 <= j < s.len()
    &&& s[j].width == mi.size.0 as int && s[j].height == mi.size.1 as int
    &&& forall|p: int|
        0 <= p < j ==> !((#[trigger] s[p]).width == mi.size.0 as int && s[p].height
            == mi.size.1 as int)
}

/// How the imported current mode lands: where its dimensions match a
/// held mode, that mode's refresh rate and preferred flag are refreshed
/// and it becomes current; otherwise the modes and the current reference
/// stay.
/// The mode an imported output's current reference names, if it names
/// one at all.
pub open spec fn spec_imported_mode(o: Output, modes: Seq<Mode>) -> Option<Mode> {
    match o.current {
        Some(k) => if k < modes.len() {
            Some(modes[k as int])
        } else {
            None
        },
        None => None,
    }
}

pub open spec fn spec_merged_mode_part(
    h0: OutputHead,
    h1: OutputHead,
    o: Output,
    modes: Seq<Mode>,
) -> bool {
    match spec_imported_mode(o, modes) {
        Some(mi) => {
            &&& forall|j: int|
                spec_is_first_sized(h0.modes@, mi, j) ==> h1.modes@ == h0.modes@.update(
                    j,
                    OutputMode {
                        refresh: mi.refresh_rate as i32,
                        preferred: mi.preferred,
                        ..h0.modes@[j]
                    },
                ) && h1.current_mode == Some(h0.modes@[j].id)
            &&& !(exists|j: int| spec_is_first_sized(h0.modes@, mi, j)) ==> h1.modes@
                == h0.modes@ && h1.current_mode == h0.current_mode
        },
        None => h1.modes@ == h0.modes@ && h1.current_mode == h0.current_mode,
    }
}

/// How a head read back from the interchange format relates to the head
/// before: the carried settings overwrite theirs; the imported current
/// mode, where its dimensions match a held mode, refreshes that mode's
/// rate and preferred flag and becomes current; identity fields and the
/// extension-only reports stay.
pub open spec fn spec_merge_rel(h0: OutputHead, h1: OutputHead, o: Output, modes: Seq<Mode>) -> bool {
    &&& h1.adaptive_sync == match o.adaptive_sync {
        Some(s) => Some(spec_sync_of_state(s)),
        None => None::<AdaptiveSync>,
    }
    &&& h1.enabled == o.enabled
    &&& h1.position_x == o.position_x && h1.position_y == o.position_y
    &&& h1.scale_1000 == o.scale_1000
    &&& h1.transform == o.transform
    &&& match o.mirroring {
        Some(b) => match h1.mirroring {
            Some(a) => a@ == b@,
            None => false,
        },
        None => h1.mirroring is None,
    }
    &&& h1.xwayland_primary == o.xwayland_primary
    &&& spec_merged_mode_part(h0, h1, o, modes)
    &&& h1 == (OutputHead {
        adaptive_sync: h1.adaptive_sync,
        enabled: h1.enabled,
        position_x: h1.position_x,
        position_y: h1.position_y,
        scale_1000: h1.scale_1000,
        transform: h1.transform,
        mirroring: h1.mirroring,
        xwayland_primary: h1.xwayland_primary,
        modes: h1.modes,
        current_mode: h1.current_mode,
        ..h0
    })
}

/// How the mirrored heads after one imported output relate to the heads
/// before it: the first head it addresses is merged, or nothing changes.
pub open spec fn spec_one_output_applied(
    hs0: Seq<OutputHead>,
    hs1: Seq<OutputHead>,
    o: Output,
    modes: Seq<Mode>,
) -> bool {
    &&& forall|j: int|
        spec_is_first_addressed(hs0, o, j) ==> hs1 == hs0.update(j, hs1[j]) && spec_merge_rel(
            hs0[j],
            hs1[j],
            o,
            modes,
        )
    &&& !(exists|j: int| spec_is_first_addressed(hs0, o, j)) ==> hs1 == hs0
}

/// A run of the import: the mirrored heads before any output, between
/// any two, and after the last, each step folding in one output as
/// [`spec_one_output_applied`] states.
pub open spec fn spec_apply_trace(
    trace: Seq<Seq<OutputHead>>,
    outputs: Seq<Output>,
    modes: Seq<Mode>,
) -> bool {
    &&& trace.len() == outputs.len() + 1
    &&& forall|i: int|
        0 <= i < outputs.len() ==> spec_one_output_applied(
            #[trigger] trace[i],
            trace[i + 1],
            outputs[i],
            modes,
        )
}

/// Whether a head matches an imported output's identity fields.
fn addresses(h: &OutputHead, o: &Output) -> (r: bool)
    ensures
        r == spec_addresses(*h, *o),
{
    let make_matches = match &o.make {
        Some(m) => h.make == *m,
        None => h.make.as_str().is_empty(),
    };
    proof {
        if h.make@.len() == 0 {
            assert(h.make@ =~= Seq::<char>::empty());
        }
    }
    h.name == o.name && make_matches && h.model == o.model
}

/// Finds the first head an imported output addresses.
fn find_first_addressed(heads: &Vec<OutputHead>, o: &Output) -> (r: Option<usize>)
    ensures
        match r {
            Some(j) => spec_is_first_addressed(heads@, *o, j as int),
            None => !exists|w: int| spec_is_first_addressed(heads@, *o, w),
        },
{
    let mut j: usize = 0;
    while j < heads.len()
        invariant
            0 <= j <= heads@.len(),
            forall|p: int| 0 <= p < j ==> !spec_addresses(#[trigger] heads@[p], *o),
        decreases heads@.len() - j,
    {
        if addresses(&heads[j], o) {
            return Some(j);
        }
        j = j + 1;
    }
    proof {
        if exists|w: int| spec_is_first_addressed(heads@, *o, w) {
            let w = choose|w: int| spec_is_first_addressed(heads@, *o, w);
            assert(!spec_addresses(heads@[w], *o));
        }
    }
    None
}

/// Finds the first held mode with the imported mode's dimensions.
fn find_first_sized(modes: &Vec<OutputMode>, mi: Mode) -> (r: Option<usize>)
    ensures
        match r {
            Some(j) => spec_is_first_sized(modes@, mi, j as int),
            None => !exists|w: int| spec_is_first_sized(modes@, mi, w),
        },
{
    let mut j: usize = 0;
    while j < modes.len()
        invariant
            0 <= j <= modes@.len(),
            forall|p: int|
                0 <= p < j ==> !((#[trigger] modes@[p]).width == mi.size.0 as int
                    && modes@[p].height == mi.size.1 as int),
        decreases modes@.len() - j,
    {
        let m = modes[j];
        if (m.width as i64) == (mi.size.0 as i64) && (m.height as i64) == (mi.size.1 as i64) {
            return Some(j);
        }
        j = j + 1;
    }
    proof {
        if exists|w: int| spec_is_first_sized(modes@, mi, w) {
            let w = choose|w: int| spec_is_first_sized(modes@, mi, w);
            assert(!(modes@[w].width == mi.size.0 as int && modes@[w].height
                == mi.size.1 as int));
        }
    }
    None
}

impl Model {
    /// Folds a parsed interchange list into the mirrored heads: each
    /// imported output overwrites the first head it addresses, in list
    /// order, as a run of [`spec_apply_trace`] states.  Heads no output addresses
    /// stay as they are.
    pub fn apply_list(&mut self, list: &List)
        requires
            old(self).wf(),
        ensures
            final(self).wf(),
            Model::spec_same_but_heads(*final(self), *old(self)),
            exists|trace: Seq<Seq<OutputHead>>|
                {
                    &&& #[trigger] spec_apply_trace(trace, list.outputs@, list.modes@)
                    &&& trace[0] == old(self).heads@
                    &&& trace[list.outputs@.len() as int] == final(self).heads@
                },
    {
        let ghost mut trace: Seq<Seq<OutputHead>> = seq![old(self).heads@];
        let mut k: usize = 0;
        while k < list.outputs.len()
            invariant
                0 <= k <= list.outputs@.len(),
                old(self).wf(),
                self.wf(),
                Model::spec_same_but_heads(*self, *old(self)),
                trace.len() == k + 1,
                trace[0] == old(self).heads@,
                trace[k as int] == self.heads@,
                forall|i: int|
                    0 <= i < k ==> spec_one_output_applied(
                        #[trigger] trace[i],
                        trace[i + 1],
                        list.outputs@[i],
                        list.modes@,
                    ),
            decreases list.outputs@.len() - k,
        {
            let ghost mid = self.heads@;
            let found = find_first_addressed(&self.heads, &list.outputs[k]);
            match found {
                Some(j) => {
                    proof {
                        assert forall|w: int|
                            spec_is_first_addressed(mid, list.outputs@[k as int], w) implies w
                            == j as int by {
                            if w < j {
                                assert(!spec_addresses(mid[w], list.outputs@[k as int]));
                            }
                            if (j as int) < w {
                                assert(!spec_addresses(mid[j as int], list.outputs@[k as int]));
                            }
                        }
                    }
                    let mut head = self.heads.remove(j);
                    merge_output(&mut head, &list.outputs[k], &list.modes);
                    self.heads.insert(j, head);
                    proof {
                        assert(self.heads@ =~= mid.update(j as int, self.heads@[j as int]));
                        assert(spec_one_output_applied(
                            mid,
                            self.heads@,
                            list.outputs@[k as int],
                            list.modes@,
                        ));
                        assert forall|i: int|
                            0 <= i < self.heads@.len() implies #[trigger] self.heads@[i].wf() by {
                            if i != j {
                                assert(self.heads@[i] == mid[i]);
                            }
                        }
                        assert forall|p: int, q: int|
                            0 <= p < q < self.heads@.len() implies self.heads@[p].id
                            != self.heads@[q].id by {
                            assert(self.heads@[p].id == mid[p].id);
                            assert(self.heads@[q].id == mid[q].id);
                        }
                        trace = trace.push(self.heads@);
                    }
                },
                None => {
                    proof {
                        assert(spec_one_output_applied(
                            mid,
                            self.heads@,
                            list.outputs@[k as int],
                            list.modes@,
                        ));
                        trace = trace.push(self.heads@);
                    }
                },
            }
            k = k + 1;
        }
        proof {
            assert(spec_apply_trace(trace, list.outputs@, list.modes@));
        }
    }
}

/// Overwrites one head with an imported output's settings, as
/// [`spec_merge_rel`] states.
fn merge_output(head: &mut OutputHead, o: &Output, modes: &Vec<Mode>)
    requires
        old(head).wf(),
    ensures
        final(head).wf(),
        spec_merge_rel(*old(head), *final(head), *o, modes@),
{
    head.adaptive_sync = match o.adaptive_sync {
        Some(AdaptiveSyncState::Always) => Some(AdaptiveSync::Always),
        Some(AdaptiveSyncState::Auto) => Some(AdaptiveSync::Automatic),
        Some(AdaptiveSyncState::Disabled) => Some(AdaptiveSync::Disabled),
        None => None,
    };
    head.enabled = o.enabled;
    head.position_x = o.position_x;
    head.position_y = o.position_y;
    head.scale_1000 = o.scale_1000;
    head.transform = o.transform;
    head.mirroring = match &o.mirroring {
        Some(m) => Some(m.clone()),
        None => None,
    };
    head.xwayland_primary = o.xwayland_primary;

    let imported = match o.current {
        Some(k) => if k < modes.len() {
            Some(modes[k])
        } else {
            None
        },
        None => None,
    };
    match imported {
        Some(mi) => {
            match find_first_sized(&head.modes, mi) {
                Some(j) => {
                    proof {
                        assert forall|w: int|
                            spec_is_first_sized(old(head).modes@, mi, w) implies w
                            == j as int by {
                            if w < j {
                                assert(!(old(head).modes@[w].width == mi.size.0 as int
                                    && old(head).modes@[w].height == mi.size.1 as int));
                            }
                            if (j as int) < w {
                                assert(!(old(head).modes@[j as int].width == mi.size.0 as int
                                    && old(head).modes@[j as int].height == mi.size.1 as int));
                            }
                        }
                    }
                    let m = head.modes[j];
                    let updated = OutputMode {
                        refresh: #[verifier::truncate] (mi.refresh_rate as i32),
                        preferred: mi.preferred,
                        ..m
                    };
                    head.modes[j] = updated;
                    head.current_mode = Some(updated.id);
                    proof {
                        assert(spec_has_mode(head.modes@, updated.id)) by {
                            assert(head.modes@[j as int].id == updated.id);
                        }
                        assert forall|p: int|
                            0 <= p < head.modes@.len() implies #[trigger] head.modes@[p].id
                            == old(head).modes@[p].id by {
                            if p != j {
                                assert(head.modes@[p] == old(head).modes@[p]);
                            }
                        }
                        assert forall|w: int|
                            spec_is_first_sized(old(head).modes@, mi, w) implies head.modes@
                            == old(head).modes@.update(
                            w,
                            OutputMode {
                                refresh: mi.refresh_rate as i32,
                                preferred: mi.preferred,
                                ..old(head).modes@[w]
                            },
                        ) && head.current_mode == Some(old(head).modes@[w].id) by {
                            assert(w == j as int);
                        }
                        assert(spec_imported_mode(*o, modes@) == Some(mi));
                        assert(spec_merged_mode_part(*old(head), *head, *o, modes@));
                    }
                },
                None => {
                    proof {
                        assert(spec_imported_mode(*o, modes@) == Some(mi));
                        assert(spec_merged_mode_part(*old(head), *head, *o, modes@));
                    }
                },
            }
        },
        None => {
            proof {
                assert(spec_imported_mode(*o, modes@) is None);
                assert(spec_merged_mode_part(*old(head), *head, *o, modes@));
            }
        },
    }
    proof {
        assert(spec_merge_rel(*old(head), *head, *o, modes@));
    }
}

} // verus!
