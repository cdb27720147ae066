use vstd::prelude::*;

use crate::adaptive_sync::AdaptiveSync;
use crate::model::Model;
use crate::output_head::OutputHead;
use crate::output_head::spec_head_like;
use crate::output_mode::OutputMode;
use crate::output_mode::find_mode_index;
use crate::output_mode::spec_has_mode;
use crate::output_mode::spec_mode_index_of;
use crate::transform::Transform;

verus! {

/// The vendor extension understands the tri-state adaptive-sync request
/// from this version on.
pub const SET_ADAPTIVE_SYNC_EXT_SINCE: u32 = 2;

/// The vendor extension understands Xwayland-primary designation from
/// this version on.
pub const SET_XWAYLAND_PRIMARY_SINCE: u32 = 3;

/// A candidate within this many millihertz of the requested refresh rate
/// may stand in for it when no mode matches exactly.
pub const REFRESH_TOLERANCE_MHZ: i32 = 500;

/// Why a transaction request was refused before anything was sent.
#[derive(Clone, Copy, Debug, PartialEq, Eq, Structural)]
pub enum ConfigurationError {
    OutputAlreadyConfigured,
    UnknownOutput,
    ModeNotFound,
    NoCosmicExtension,
    PositionForMirroredOutput,
    MirroringItself,
    UnsupportedVrrState,
    UnsupportedXwaylandPrimary,
}

/// The text each refusal reads as.
pub open spec fn spec_error_text(e: ConfigurationError) -> Seq<char> {
    match e {
        ConfigurationError::OutputAlreadyConfigured => "Output configured twice"@,
        ConfigurationError::UnknownOutput => "Unknown output"@,
        ConfigurationError::ModeNotFound => "Unknown or unsupported mode"@,
        ConfigurationError::NoCosmicExtension => "Feature isn't available outside COSMIC"@,
        ConfigurationError::PositionForMirroredOutput => "You cannot position a mirrored output"@,
        ConfigurationError::MirroringItself => "Output mirroring itself"@,
        ConfigurationError::UnsupportedVrrState => "Automatic VRR state management isn't available outside COSMIC"@,
        ConfigurationError::UnsupportedXwaylandPrimary => "Xwayland compatibility options not available outside or on this version of COSMIC"@,
    }
}

impl ConfigurationError {
    /// A human-readable account of the error.
    pub fn describe(&self) -> (r: String)
        ensures
            r@ == spec_error_text(*self),
    {
        match self {
            ConfigurationError::OutputAlreadyConfigured => "Output configured twice",
            ConfigurationError::UnknownOutput => "Unknown output",
            ConfigurationError::ModeNotFound => "Unknown or unsupported mode",
            ConfigurationError::NoCosmicExtension => "Feature isn't available outside COSMIC",
            ConfigurationError::PositionForMirroredOutput => "You cannot position a mirrored output",
            ConfigurationError::MirroringItself => "Output mirroring itself",
            ConfigurationError::UnsupportedVrrState => "Automatic VRR state management isn't available outside COSMIC",
            ConfigurationError::UnsupportedXwaylandPrimary => "Xwayland compatibility options not available outside or on this version of COSMIC",
        }.to_owned()
    }
}

/// What a caller asks of one head: each field set is sent, each left
/// `None` is left alone.  The refresh rate is integer millihertz and the
/// scale in thousandths; the embedding program converts from fractional
/// units at its boundary.
#[derive(Clone, Copy, Debug, PartialEq, Eq)]
pub struct HeadConfiguration {
    /// The width and height of the output picture, in pixels.
    pub size: Option<(u32, u32)>,
    /// The refresh rate to apply, in millihertz.
    pub refresh_mhz: Option<i32>,
    /// The adaptive-sync mode to apply.
    pub adaptive_sync: Option<AdaptiveSync>,
    /// The pixel coordinates to place the output at.
    pub pos: Option<(i32, i32)>,
    /// The scale to apply, in thousandths.
    pub scale_1000: Option<i32>,
    /// The transform to apply.
    pub transform: Option<Transform>,
}

impl Default for HeadConfiguration {
    /// Asks for nothing: every field left alone.
    fn default() -> (d: HeadConfiguration)
        ensures
            d == (HeadConfiguration {
                size: None,
                refresh_mhz: None,
                adaptive_sync: None,
                pos: None,
                scale_1000: None,
                transform: None,
            }),
    {
        HeadConfiguration {
            size: None,
            refresh_mhz: None,
            adaptive_sync: None,
            pos: None,
            scale_1000: None,
            transform: None,
        }
    }
}

/// One protocol request of a configuration transaction, in the order the
/// requests must reach the wire.  Requests that address a head follow the
/// `EnableHead` or `MirrorHead` that opened it.  Heads and modes are named
/// by their protocol object identifiers.
#[derive(Clone, Copy, Debug, PartialEq, Eq)]
pub enum ConfigRequest {
    DisableHead { head: u64 },
    EnableHead { head: u64 },
    MirrorHead { head: u64, source: u64 },
    /// Scale through the extension's thousandths-precision field.
    SetScaleExt { scale_1000: i32 },
    /// Scale through the base protocol's fractional field, still carried
    /// in thousandths.
    SetScale { scale_1000: i32 },
    SetTransform { transform: Transform },
    SetPosition { x: i32, y: i32 },
    /// Adaptive sync through the extension's tri-state field.
    SetAdaptiveSyncExt { state: AdaptiveSync },
    /// Adaptive sync through the base protocol's two-state field.
    SetAdaptiveSync { enabled: bool },
    SetMode { mode: u64 },
    Test,
    Apply,
    Destroy,
}

/// Whether a mode can satisfy the request: it matches the asked-for size,
/// or, with no size given, it is the head's present mode.
pub open spec fn spec_is_candidate(
    size: Option<(u32, u32)>,
    current: Option<u64>,
    m: OutputMode,
) -> bool {
    match size {
        Some((w, h)) => m.width == w as int && m.height == h as int,
        None => current == Some(m.id),
    }
}

/// Distance in millihertz.
pub open spec fn spec_abs(x: int) -> int {
    if x >= 0 {
        x
    } else {
        -x
    }
}

/// The candidate at index `i` is the mode a refresh-rate request `r`
/// selects: the first exact match in millihertz, or — with no exact match
/// anywhere — the first candidate within tolerance whose deviation no
/// other tolerated candidate beats.
pub open spec fn spec_refresh_choice(
    head: OutputHead,
    size: Option<(u32, u32)>,
    r: int,
    i: int,
) -> bool {
    let ms = head.modes@;
    let cur = head.current_mode;
    &&& 0 <= i < ms.len()
    &&& spec_is_candidate(size, cur, ms[i])
    &&& if ms[i].refresh == r {
        forall|p: int|
            0 <= p < i ==> !(spec_is_candidate(size, cur, #[trigger] ms[p]) && ms[p].refresh == r)
    } else {
        &&& forall|p: int|
            0 <= p < ms.len() ==> !(spec_is_candidate(size, cur, #[trigger] ms[p]) && ms[p].refresh
                == r)
        &&& spec_abs(ms[i].refresh - r) <= REFRESH_TOLERANCE_MHZ
        &&& forall|p: int|
            0 <= p < ms.len() && spec_is_candidate(size, cur, #[trigger] ms[p]) && spec_abs(
                ms[p].refresh - r,
            ) <= REFRESH_TOLERANCE_MHZ ==> spec_abs(ms[p].refresh - r) >= spec_abs(ms[i].refresh - r)
        &&& forall|p: int|
            0 <= p < i && spec_is_candidate(size, cur, #[trigger] ms[p]) && spec_abs(
                ms[p].refresh - r,
            ) <= REFRESH_TOLERANCE_MHZ ==> spec_abs(ms[p].refresh - r) > spec_abs(ms[i].refresh - r)
    }
}

/// The candidate at index `i` is the mode the request selects: with a
/// refresh rate, by [`spec_refresh_choice`]; without one, the first
/// candidate in arrival order.
pub open spec fn spec_mode_choice(head: OutputHead, args: HeadConfiguration, i: int) -> bool {
    let ms = head.modes@;
    let cur = head.current_mode;
    match args.refresh_mhz {
        Some(r) => spec_refresh_choice(head, args.size, r as int, i),
        None => 0 <= i < ms.len() && spec_is_candidate(args.size, cur, ms[i]) && forall|p: int|
            0 <= p < i ==> !spec_is_candidate(args.size, cur, #[trigger] ms[p]),
    }
}

/// No mode can satisfy the request: with a refresh rate, no candidate
/// lies within tolerance of it; without one, there is no candidate at
/// all.
pub open spec fn spec_no_mode_choice(head: OutputHead, args: HeadConfiguration) -> bool {
    let ms = head.modes@;
    let cur = head.current_mode;
    match args.refresh_mhz {
        Some(r) => forall|p: int|
            0 <= p < ms.len() && spec_is_candidate(args.size, cur, #[trigger] ms[p]) ==> spec_abs(
                ms[p].refresh - r,
            ) > REFRESH_TOLERANCE_MHZ,
        None => forall|p: int|
            0 <= p < ms.len() ==> !spec_is_candidate(args.size, cur, #[trigger] ms[p]),
    }
}

/// The scale, transform and position requests a head configuration opens
/// with, in that order.
pub open spec fn spec_settings_prefix(args: HeadConfiguration, has_ext: bool) -> Seq<
    ConfigRequest,
> {
    (match args.scale_1000 {
        Some(s) => if has_ext {
            seq![ConfigRequest::SetScaleExt { scale_1000: s }]
        } else {
            seq![ConfigRequest::SetScale { scale_1000: s }]
        },
        None => Seq::<ConfigRequest>::empty(),
    }) + (match args.transform {
        Some(t) => seq![ConfigRequest::SetTransform { transform: t }],
        None => Seq::<ConfigRequest>::empty(),
    }) + (match args.pos {
        Some((x, y)) => seq![ConfigRequest::SetPosition { x, y }],
        None => Seq::<ConfigRequest>::empty(),
    })
}

/// Asking for automatic adaptive sync needs the extension, new enough.
pub open spec fn spec_vrr_unsupported(
    args: HeadConfiguration,
    has_ext: bool,
    ext_version: u32,
) -> bool {
    args.adaptive_sync == Some(AdaptiveSync::Automatic) && !(has_ext && ext_version
        >= SET_ADAPTIVE_SYNC_EXT_SINCE)
}

/// The adaptive-sync request a head configuration carries, where it is
/// not refused: through the extension's tri-state field when new enough,
/// else degraded to the base protocol's two-state field.
pub open spec fn spec_sync_requests(
    args: HeadConfiguration,
    has_ext: bool,
    ext_version: u32,
) -> Seq<ConfigRequest> {
    match args.adaptive_sync {
        Some(v) => if has_ext && ext_version >= SET_ADAPTIVE_SYNC_EXT_SINCE {
            seq![ConfigRequest::SetAdaptiveSyncExt { state: v }]
        } else {
            seq![ConfigRequest::SetAdaptiveSync { enabled: v == AdaptiveSync::Always }]
        },
        None => Seq::<ConfigRequest>::empty(),
    }
}

/// Whether an index satisfying [`spec_mode_choice`] exists.
pub open spec fn spec_some_mode_choice(head: OutputHead, args: HeadConfiguration) -> bool {
    exists|i: int| spec_mode_choice(head, args, i)
}

/// The index [`spec_mode_choice`] describes; unique where one exists.
pub open spec fn spec_mode_choice_index(head: OutputHead, args: HeadConfiguration) -> int {
    choose|i: int| spec_mode_choice(head, args, i)
}

/// Whether a mode satisfies the candidate test.
fn mode_is_candidate(size: Option<(u32, u32)>, current: Option<u64>, m: &OutputMode) -> (r: bool)
    ensures
        r == spec_is_candidate(size, current, *m),
{
    match size {
        Some((w, h)) => (m.width as i64) == (w as i64) && (m.height as i64) == (h as i64),
        None => match current {
            Some(c) => m.id == c,
            None => false,
        },
    }
}

/// Deviation of a mode's refresh rate from the request, in millihertz.
fn refresh_distance(mode_refresh: i32, r: i32) -> (d: i64)
    ensures
        d == spec_abs(mode_refresh - r),
{
    let d: i64 = (mode_refresh as i64) - (r as i64);
    if d >= 0 {
        d
    } else {
        -d
    }
}

/// Picks the mode a head configuration selects, as [`spec_mode_choice`]
/// and [`spec_no_mode_choice`] state: `Some` holds the position of the
/// chosen mode among the head's modes.
fn select_mode(head: &OutputHead, args: &HeadConfiguration) -> (r: Option<usize>)
    ensures
        match r {
            Some(i) => spec_mode_choice(*head, *args, i as int),
            None => spec_no_mode_choice(*head, *args),
        },
{
    let size = args.size;
    let current = head.current_mode;
    let refresh_opt = args.refresh_mhz;
    match refresh_opt {
        Some(refresh) => {
            let mut k: usize = 0;
            while k < head.modes.len()
                invariant
                    0 <= k <= head.modes@.len(),
                    size == args.size,
                    current == head.current_mode,
                    args.refresh_mhz == Some(refresh),
                    forall|p: int|
                        0 <= p < k ==> !(spec_is_candidate(
                            size,
                            current,
                            #[trigger] head.modes@[p],
                        ) && head.modes@[p].refresh == refresh),
                decreases head.modes@.len() - k,
            {
                let m = head.modes[k];
                if mode_is_candidate(size, current, &m) && m.refresh == refresh {
                    return Some(k);
                }
                k = k + 1;
            }
            let mut best: Option<usize> = None;
            let mut k: usize = 0;
            while k < head.modes.len()
                invariant
                    0 <= k <= head.modes@.len(),
                    size == args.size,
                    current == head.current_mode,
                    args.refresh_mhz == Some(refresh),
                    forall|p: int|
                        0 <= p < head.modes@.len() ==> !(spec_is_candidate(
                            size,
                            current,
                            #[trigger] head.modes@[p],
                        ) && head.modes@[p].refresh == refresh),
                    match best {
                        Some(b) => {
                            &&& 0 <= b < k <= head.modes@.len()
                            &&& spec_is_candidate(size, current, head.modes@[b as int])
                            &&& spec_abs(head.modes@[b as int].refresh - refresh)
                                <= REFRESH_TOLERANCE_MHZ
                            &&& forall|p: int|
                                0 <= p < k && spec_is_candidate(
                                    size,
                                    current,
                                    #[trigger] head.modes@[p],
                                ) && spec_abs(head.modes@[p].refresh - refresh)
                                    <= REFRESH_TOLERANCE_MHZ ==> spec_abs(
                                    head.modes@[p].refresh - refresh,
                                ) >= spec_abs(head.modes@[b as int].refresh - refresh)
                            &&& forall|p: int|
                                0 <= p < b && spec_is_candidate(
                                    size,
                                    current,
                                    #[trigger] head.modes@[p],
                                ) && spec_abs(head.modes@[p].refresh - refresh)
                                    <= REFRESH_TOLERANCE_MHZ ==> spec_abs(
                                    head.modes@[p].refresh - refresh,
                                ) > spec_abs(head.modes@[b as int].refresh - refresh)
                        },
                        None => forall|p: int|
                            0 <= p < k && spec_is_candidate(
                                size,
                                current,
                                #[trigger] head.modes@[p],
                            ) ==> spec_abs(head.modes@[p].refresh - refresh)
                                > REFRESH_TOLERANCE_MHZ,
                    },
                decreases head.modes@.len() - k,
            {
                let m = head.modes[k];
                if mode_is_candidate(size, current, &m) {
                    let d = refresh_distance(m.refresh, refresh);
                    if d <= REFRESH_TOLERANCE_MHZ as i64 {
                        let better = match best {
                            Some(b) => {
                                let bm = head.modes[b];
                                d < refresh_distance(bm.refresh, refresh)
                            },
                            None => true,
                        };
                        if better {
                            best = Some(k);
                        }
                    }
                }
                k = k + 1;
            }
            best
        },
        None => {
            let mut k: usize = 0;
            while k < head.modes.len()
                invariant
                    0 <= k <= head.modes@.len(),
                    size == args.size,
                    current == head.current_mode,
                    args.refresh_mhz is None,
                    forall|p: int|
                        0 <= p < k ==> !spec_is_candidate(size, current, #[trigger] head.modes@[p]),
                decreases head.modes@.len() - k,
            {
                let m = head.modes[k];
                if mode_is_candidate(size, current, &m) {
                    return Some(k);
                }
                k = k + 1;
            }
            None
        },
    }
}

/// Turns one head configuration into its request sequence against a head:
/// scale, transform and position first, then adaptive sync, then the mode
/// the size and refresh-rate constraints select.  Requests already
/// decided when a later constraint fails are still returned with the
/// error, exactly as they were sent.
pub fn send_mode_to_config_head(
    head: &OutputHead,
    has_extension: bool,
    extension_version: u32,
    args: &HeadConfiguration,
) -> (r: (Vec<ConfigRequest>, Option<ConfigurationError>))
    ensures
        ({
            let pre = spec_settings_prefix(*args, has_extension);
            if spec_vrr_unsupported(*args, has_extension, extension_version) {
                r.0@ == pre && r.1 == Some(ConfigurationError::UnsupportedVrrState)
            } else {
                let pre2 = pre + spec_sync_requests(*args, has_extension, extension_version);
                if spec_some_mode_choice(*head, *args) {
                    r.0@ == pre2.push(
                        ConfigRequest::SetMode {
                            mode: head.modes@[spec_mode_choice_index(*head, *args)].id,
                        },
                    ) && r.1 is None
                } else {
                    spec_no_mode_choice(*head, *args) && r.0@ == pre2 && r.1 == Some(
                        ConfigurationError::ModeNotFound,
                    )
                }
            }
        }),
{
    let mut requests: Vec<ConfigRequest> = Vec::new();
    match args.scale_1000 {
        Some(s) => {
            if has_extension {
                requests.push(ConfigRequest::SetScaleExt { scale_1000: s });
            } else {
                requests.push(ConfigRequest::SetScale { scale_1000: s });
            }
        },
        None => {},
    }
    match args.transform {
        Some(t) => {
            requests.push(ConfigRequest::SetTransform { transform: t });
        },
        None => {},
    }
    match args.pos {
        Some((x, y)) => {
            requests.push(ConfigRequest::SetPosition { x, y });
        },
        None => {},
    }
    proof {
        assert(requests@ =~= spec_settings_prefix(*args, has_extension));
    }
    match args.adaptive_sync {
        Some(v) => {
            if has_extension && extension_version >= SET_ADAPTIVE_SYNC_EXT_SINCE {
                requests.push(ConfigRequest::SetAdaptiveSyncExt { state: v });
            } else {
                match v {
                    AdaptiveSync::Always => {
                        requests.push(ConfigRequest::SetAdaptiveSync { enabled: true });
                    },
                    AdaptiveSync::Disabled => {
                        requests.push(ConfigRequest::SetAdaptiveSync { enabled: false });
                    },
                    AdaptiveSync::Automatic => {
                        return (requests, Some(ConfigurationError::UnsupportedVrrState));
                    },
                }
            }
        },
        None => {},
    }
    proof {
        assert(requests@ =~= spec_settings_prefix(*args, has_extension) + spec_sync_requests(
            *args,
            has_extension,
            extension_version,
        ));
    }
    match select_mode(head, args) {
        Some(i) => {
            proof {
                assert(spec_mode_choice_index(*head, *args) == i as int);
            }
            requests.push(ConfigRequest::SetMode { mode: head.modes[i].id });
            (requests, None)
        },
        None => (requests, Some(ConfigurationError::ModeNotFound)),
    }
}

/// Whether one of the staged names reads as `name`.
pub open spec fn spec_contains_name(c: Seq<String>, name: Seq<char>) -> bool {
    exists|i: int| 0 <= i < c.len() && (#[trigger] c[i])@ == name
}

/// The head at index `k` is the first one so named: the one every lookup
/// by this name resolves to.
pub open spec fn spec_is_first_named(s: Seq<OutputHead>, name: Seq<char>, k: int) -> bool {
    &&& 0 <= k < s.len()
    &&& s[k].name@ == name
    &&& forall|p: int| 0 <= p < k ==> (#[trigger] s[p]).name@ != name
}

/// Whether some head is so named.
pub open spec fn spec_has_named(s: Seq<OutputHead>, name: Seq<char>) -> bool {
    exists|i: int| 0 <= i < s.len() && (#[trigger] s[i]).name@ == name
}

/// The index of the first head so named; unique where one exists.
pub open spec fn spec_first_named_index(s: Seq<OutputHead>, name: Seq<char>) -> int {
    choose|k: int| spec_is_first_named(s, name, k)
}

/// Whether the staged names hold the given one.
fn contains_name(v: &Vec<String>, name: &String) -> (r: bool)
    ensures
        r == spec_contains_name(v@, name@),
{
    let mut k: usize = 0;
    while k < v.len()
        invariant
            0 <= k <= v@.len(),
            forall|p: int| 0 <= p < k ==> (#[trigger] v@[p])@ != name@,
        decreases v@.len() - k,
    {
        if *name == v[k] {
            return true;
        }
        k = k + 1;
    }
    false
}

/// Finds the first head with the given name; callers get first-match
/// semantics, since the protocol does not promise names unique.
pub fn find_head_by_name(heads: &Vec<OutputHead>, name: &String) -> (r: Option<usize>)
    ensures
        match r {
            Some(i) => spec_is_first_named(heads@, name@, i as int),
            None => !spec_has_named(heads@, name@),
        },
{
    let mut k: usize = 0;
    while k < heads.len()
        invariant
            0 <= k <= heads@.len(),
            forall|p: int| 0 <= p < k ==> (#[trigger] heads@[p]).name@ != name@,
        decreases heads@.len() - k,
    {
        if *name == heads[k].name {
            return Some(k);
        }
        k = k + 1;
    }
    None
}

/// An opened configuration transaction: a snapshot of the heads known when
/// it was opened, the configuration serial it was opened under, the names
/// staged so far, and the protocol requests decided so far, in order.
/// Interleaved dispatch activity cannot touch it: staging always reads the
/// snapshot, never live state.
#[derive(Debug)]
pub struct Configuration {
    pub serial: u32,
    pub has_extension: bool,
    pub extension_version: u32,
    pub known_heads: Vec<OutputHead>,
    pub configured_heads: Vec<String>,
    pub requests: Vec<ConfigRequest>,
}

/// What one head configuration appends after the enable or mirror request
/// that opened the head, as far as it gets: settings first, adaptive sync
/// if not refused, then the selected mode if one exists.
pub open spec fn spec_staging_tail(
    h: OutputHead,
    args: HeadConfiguration,
    has_ext: bool,
    ext_version: u32,
) -> Seq<ConfigRequest> {
    let pre = spec_settings_prefix(args, has_ext);
    if spec_vrr_unsupported(args, has_ext, ext_version) {
        pre
    } else {
        let pre2 = pre + spec_sync_requests(args, has_ext, ext_version);
        if spec_some_mode_choice(h, args) {
            pre2.push(
                ConfigRequest::SetMode { mode: h.modes@[spec_mode_choice_index(h, args)].id },
            )
        } else {
            pre2
        }
    }
}

/// Why one head configuration fails, if it does.
pub open spec fn spec_staging_error(
    h: OutputHead,
    args: HeadConfiguration,
    has_ext: bool,
    ext_version: u32,
) -> Option<ConfigurationError> {
    if spec_vrr_unsupported(args, has_ext, ext_version) {
        Some(ConfigurationError::UnsupportedVrrState)
    } else if spec_some_mode_choice(h, args) {
        None
    } else {
        Some(ConfigurationError::ModeNotFound)
    }
}

impl Configuration {
    /// The transaction's snapshot, serial and capabilities are fixed at
    /// open time; staging only grows the staged names and requests.
    pub open spec fn spec_frame(c1: Configuration, c0: Configuration) -> bool {
        &&& c1.serial == c0.serial
        &&& c1.has_extension == c0.has_extension
        &&& c1.extension_version == c0.extension_version
        &&& c1.known_heads == c0.known_heads
    }

    /// Exactly the given name was appended to the staged names.
    pub open spec fn spec_staged(c1: Configuration, c0: Configuration, name: Seq<char>) -> bool {
        &&& c1.configured_heads@.len() == c0.configured_heads@.len() + 1
        &&& c1.configured_heads@.take(c0.configured_heads@.len() as int) == c0.configured_heads@
        &&& c1.configured_heads@.last()@ == name
    }

    /// Stages the named head to be disabled.  A name staged earlier this
    /// transaction is refused, and every refusal leaves the transaction
    /// exactly as it was: validation comes before anything is staged.
    pub fn disable_head(&mut self, output: &String) -> (r: Result<(), ConfigurationError>)
        ensures
            Self::spec_frame(*final(self), *old(self)),
            r is Err ==> *final(self) == *old(self),
            spec_contains_name(old(self).configured_heads@, output@) ==> r == Err::<
                (),
                ConfigurationError,
            >(ConfigurationError::OutputAlreadyConfigured),
            !spec_contains_name(old(self).configured_heads@, output@) && !spec_has_named(
                old(self).known_heads@,
                output@,
            ) ==> r == Err::<(), ConfigurationError>(ConfigurationError::UnknownOutput),
            !spec_contains_name(old(self).configured_heads@, output@) && spec_has_named(
                old(self).known_heads@,
                output@,
            ) ==> {
                &&& r is Ok
                &&& Self::spec_staged(*final(self), *old(self), output@)
                &&& final(self).requests@ == old(self).requests@.push(
                    ConfigRequest::DisableHead {
                        head: old(self).known_heads@[spec_first_named_index(
                            old(self).known_heads@,
                            output@,
                        )].id,
                    },
                )
            },
    {
        if contains_name(&self.configured_heads, output) {
            return Err(ConfigurationError::OutputAlreadyConfigured);
        }
        let k = match find_head_by_name(&self.known_heads, output) {
            Some(k) => k,
            None => {
                return Err(ConfigurationError::UnknownOutput);
            },
        };
        proof {
            assert(spec_first_named_index(old(self).known_heads@, output@) == k as int);
        }
        let id = self.known_heads[k].id;
        self.configured_heads.push(output.clone());
        proof {
            assert(self.configured_heads@.take(old(self).configured_heads@.len() as int)
                =~= old(self).configured_heads@);
        }
        self.requests.push(ConfigRequest::DisableHead { head: id });
        Ok(())
    }

    /// Stages the named head to be enabled, with the given settings if
    /// any.  The name, the settings and the mode selection are validated
    /// first: every refusal leaves the transaction exactly as it was, and
    /// only a fully valid head configuration is staged and turned into
    /// requests.
    pub fn enable_head(&mut self, output: &String, mode: Option<HeadConfiguration>) -> (r: Result<
        (),
        ConfigurationError,
    >)
        ensures
            Self::spec_frame(*final(self), *old(self)),
            r is Err ==> *final(self) == *old(self),
            spec_contains_name(old(self).configured_heads@, output@) ==> r == Err::<
                (),
                ConfigurationError,
            >(ConfigurationError::OutputAlreadyConfigured),
            !spec_contains_name(old(self).configured_heads@, output@) && !spec_has_named(
                old(self).known_heads@,
                output@,
            ) ==> r == Err::<(), ConfigurationError>(ConfigurationError::UnknownOutput),
            !spec_contains_name(old(self).configured_heads@, output@) && spec_has_named(
                old(self).known_heads@,
                output@,
            ) ==> {
                let h = old(self).known_heads@[spec_first_named_index(
                    old(self).known_heads@,
                    output@,
                )];
                let base = old(self).requests@.push(ConfigRequest::EnableHead { head: h.id });
                match mode {
                    None => {
                        &&& r is Ok
                        &&& Self::spec_staged(*final(self), *old(self), output@)
                        &&& final(self).requests@ == base
                    },
                    Some(args) => {
                        &&& r == match spec_staging_error(
                            h,
                            args,
                            old(self).has_extension,
                            old(self).extension_version,
                        ) {
                            None => Ok::<(), ConfigurationError>(()),
                            Some(e) => Err(e),
                        }
                        &&& (r is Ok ==> Self::spec_staged(*final(self), *old(self), output@)
                            && final(self).requests@ == base + spec_staging_tail(
                            h,
                            args,
                            old(self).has_extension,
                            old(self).extension_version,
                        ))
                        &&& (r == Err::<(), ConfigurationError>(ConfigurationError::ModeNotFound)
                            ==> spec_no_mode_choice(h, args))
                    },
                }
            },
    {
        if contains_name(&self.configured_heads, output) {
            return Err(ConfigurationError::OutputAlreadyConfigured);
        }
        let k = match find_head_by_name(&self.known_heads, output) {
            Some(k) => k,
            None => {
                return Err(ConfigurationError::UnknownOutput);
            },
        };
        proof {
            assert(spec_first_named_index(old(self).known_heads@, output@) == k as int);
        }
        let id = self.known_heads[k].id;
        match mode {
            Some(args) => {
                let (tail, err) = send_mode_to_config_head(
                    &self.known_heads[k],
                    self.has_extension,
                    self.extension_version,
                    &args,
                );
                match err {
                    Some(e) => Err(e),
                    None => {
                        self.configured_heads.push(output.clone());
                        proof {
                            assert(self.configured_heads@.take(
                                old(self).configured_heads@.len() as int,
                            ) =~= old(self).configured_heads@);
                        }
                        self.requests.push(ConfigRequest::EnableHead { head: id });
                        let ghost mid = self.requests@;
                        let ghost conf = self.configured_heads@;
                        let mut j: usize = 0;
                        while j < tail.len()
                            invariant
                                0 <= j <= tail@.len(),
                                Self::spec_frame(*self, *old(self)),
                                self.configured_heads@ == conf,
                                self.requests@ == mid + tail@.take(j as int),
                            decreases tail@.len() - j,
                        {
                            self.requests.push(tail[j]);
                            proof {
                                assert(mid + tail@.take(j + 1) =~= (mid + tail@.take(
                                    j as int,
                                )).push(tail@[j as int]));
                            }
                            j = j + 1;
                        }
                        proof {
                            assert(tail@.take(tail@.len() as int) =~= tail@);
                        }
                        Ok(())
                    },
                }
            },
            None => {
                self.configured_heads.push(output.clone());
                proof {
                    assert(self.configured_heads@.take(old(self).configured_heads@.len() as int)
                        =~= old(self).configured_heads@);
                }
                self.requests.push(ConfigRequest::EnableHead { head: id });
                Ok(())
            },
        }
    }

    /// Stages the named head to mirror the second named head, with the
    /// given settings if any.  Mirroring needs the vendor extension; a
    /// head cannot mirror itself; a mirrored head inherits its geometry,
    /// so asking for a position is refused.  All of it is validated
    /// first: every refusal leaves the transaction exactly as it was.
    pub fn mirror_head(
        &mut self,
        output: &String,
        mirrored: &String,
        mode: Option<HeadConfiguration>,
    ) -> (r: Result<(), ConfigurationError>)
        ensures
            Self::spec_frame(*final(self), *old(self)),
            r is Err ==> *final(self) == *old(self),
            !old(self).has_extension ==> r == Err::<(), ConfigurationError>(
                ConfigurationError::NoCosmicExtension,
            ),
            old(self).has_extension && spec_contains_name(old(self).configured_heads@, output@)
                ==> r == Err::<(), ConfigurationError>(
                ConfigurationError::OutputAlreadyConfigured,
            ),
            old(self).has_extension && !spec_contains_name(old(self).configured_heads@, output@)
                && output@ == mirrored@ ==> r == Err::<(), ConfigurationError>(
                ConfigurationError::MirroringItself,
            ),
            old(self).has_extension && !spec_contains_name(old(self).configured_heads@, output@)
                && output@ != mirrored@ && (match mode {
                Some(args) => args.pos is Some,
                None => false,
            }) ==> r == Err::<(), ConfigurationError>(
                ConfigurationError::PositionForMirroredOutput,
            ),
            old(self).has_extension && !spec_contains_name(old(self).configured_heads@, output@)
                && output@ != mirrored@ && (match mode {
                Some(args) => args.pos is None,
                None => true,
            }) ==> {
                if spec_has_named(old(self).known_heads@, output@) && spec_has_named(
                    old(self).known_heads@,
                    mirrored@,
                ) {
                    let h = old(self).known_heads@[spec_first_named_index(
                        old(self).known_heads@,
                        output@,
                    )];
                    let src = old(self).known_heads@[spec_first_named_index(
                        old(self).known_heads@,
                        mirrored@,
                    )];
                    let base = old(self).requests@.push(
                        ConfigRequest::MirrorHead { head: h.id, source: src.id },
                    );
                    match mode {
                        None => {
                            &&& r is Ok
                            &&& Self::spec_staged(*final(self), *old(self), output@)
                            &&& final(self).requests@ == base
                        },
                        Some(args) => {
                            &&& r == match spec_staging_error(
                                h,
                                args,
                                old(self).has_extension,
                                old(self).extension_version,
                            ) {
                                None => Ok::<(), ConfigurationError>(()),
                                Some(e) => Err(e),
                            }
                            &&& (r is Ok ==> Self::spec_staged(*final(self), *old(self), output@)
                                && final(self).requests@ == base + spec_staging_tail(
                                h,
                                args,
                                old(self).has_extension,
                                old(self).extension_version,
                            ))
                            &&& (r == Err::<(), ConfigurationError>(
                                ConfigurationError::ModeNotFound,
                            ) ==> spec_no_mode_choice(h, args))
                        },
                    }
                } else {
                    r == Err::<(), ConfigurationError>(ConfigurationError::UnknownOutput)
                }
            },
    {
        if !self.has_extension {
            return Err(ConfigurationError::NoCosmicExtension);
        }
        if contains_name(&self.configured_heads, output) {
            return Err(ConfigurationError::OutputAlreadyConfigured);
        }
        if *output == *mirrored {
            return Err(ConfigurationError::MirroringItself);
        }
        let pos_requested = match &mode {
            Some(args) => args.pos.is_some(),
            None => false,
        };
        if pos_requested {
            return Err(ConfigurationError::PositionForMirroredOutput);
        }
        let k = match find_head_by_name(&self.known_heads, output) {
            Some(k) => k,
            None => {
                return Err(ConfigurationError::UnknownOutput);
            },
        };
        let m = match find_head_by_name(&self.known_heads, mirrored) {
            Some(m) => m,
            None => {
                return Err(ConfigurationError::UnknownOutput);
            },
        };
        proof {
            assert(spec_first_named_index(old(self).known_heads@, output@) == k as int);
            assert(spec_first_named_index(old(self).known_heads@, mirrored@) == m as int);
        }
        let id = self.known_heads[k].id;
        let source = self.known_heads[m].id;
        match mode {
            Some(args) => {
                let (tail, err) = send_mode_to_config_head(
                    &self.known_heads[k],
                    self.has_extension,
                    self.extension_version,
                    &args,
                );
                match err {
                    Some(e) => Err(e),
                    None => {
                        self.configured_heads.push(output.clone());
                        proof {
                            assert(self.configured_heads@.take(
                                old(self).configured_heads@.len() as int,
                            ) =~= old(self).configured_heads@);
                        }
                        self.requests.push(ConfigRequest::MirrorHead { head: id, source });
                        let ghost mid = self.requests@;
                        let ghost conf = self.configured_heads@;
                        let mut j: usize = 0;
                        while j < tail.len()
                            invariant
                                0 <= j <= tail@.len(),
                                Self::spec_frame(*self, *old(self)),
                                self.configured_heads@ == conf,
                                self.requests@ == mid + tail@.take(j as int),
                            decreases tail@.len() - j,
                        {
                            self.requests.push(tail[j]);
                            proof {
                                assert(mid + tail@.take(j + 1) =~= (mid + tail@.take(
                                    j as int,
                                )).push(tail@[j as int]));
                            }
                            j = j + 1;
                        }
                        proof {
                            assert(tail@.take(tail@.len() as int) =~= tail@);
                        }
                        Ok(())
                    },
                }
            },
            None => {
                self.configured_heads.push(output.clone());
                proof {
                    assert(self.configured_heads@.take(old(self).configured_heads@.len() as int)
                        =~= old(self).configured_heads@);
                }
                self.requests.push(ConfigRequest::MirrorHead { head: id, source });
                Ok(())
            },
        }
    }
}


/// The request that re-stages one head to its last known state: enabled
/// with its mirror source, enabled plain, or disabled.
pub open spec fn spec_restage_request(h: OutputHead, full: Seq<OutputHead>) -> ConfigRequest {
    if h.enabled {
        match h.mirroring {
            Some(src) => ConfigRequest::MirrorHead {
                head: h.id,
                source: full[spec_first_named_index(full, src@)].id,
            },
            None => ConfigRequest::EnableHead { head: h.id },
        }
    } else {
        ConfigRequest::DisableHead { head: h.id }
    }
}

/// The requests finalization appends for the first `upto` known heads:
/// one re-stage for every head whose name was not explicitly staged, in
/// snapshot order, so a finalized transaction is total over all known
/// heads.
pub open spec fn spec_auto_requests(
    full: Seq<OutputHead>,
    names: Seq<String>,
    upto: int,
) -> Seq<ConfigRequest>
    decreases upto,
{
    if upto <= 0 {
        Seq::<ConfigRequest>::empty()
    } else {
        spec_auto_requests(full, names, upto - 1) + if spec_contains_name(
            names,
            full[upto - 1].name@,
        ) {
            Seq::<ConfigRequest>::empty()
        } else {
            seq![spec_restage_request(full[upto - 1], full)]
        }
    }
}

/// Some head named `n`, not staged by name, stands before index `i`.
pub open spec fn spec_restaged_before(
    full: Seq<OutputHead>,
    names: Seq<String>,
    i: int,
    n: Seq<char>,
) -> bool {
    exists|j: int|
        0 <= j < i && !spec_contains_name(names, (#[trigger] full[j]).name@) && full[j].name@ == n
}

/// What finalization needs to not fail: every known head left unstaged is
/// the first of its name, and one that mirrors does so under the
/// extension, from another name, one that is known.  Outside these bounds
/// auto-staging would trip over its own refusals.
pub open spec fn spec_finalize_ok(c: Configuration) -> bool {
    forall|i: int|
        0 <= i < c.known_heads@.len() && !spec_contains_name(
            c.configured_heads@,
            (#[trigger] c.known_heads@[i]).name@,
        ) ==> {
            let h = c.known_heads@[i];
            &&& spec_is_first_named(c.known_heads@, h.name@, i)
            &&& (h.enabled ==> match h.mirroring {
                Some(src) => c.has_extension && h.name@ != src@ && spec_has_named(
                    c.known_heads@,
                    src@,
                ),
                None => true,
            })
        }
}

impl Configuration {
    /// Re-stages every known head whose name was not explicitly staged,
    /// to reproduce its last known state exactly — so the finalized
    /// transaction is a total function over all known heads, and no head
    /// is silently dropped.  Finalization runs it before the Test or
    /// Apply request.
    pub fn configure_remaining_heads(&mut self)
        requires
            spec_finalize_ok(*old(self)),
        ensures
            Self::spec_frame(*final(self), *old(self)),
            final(self).requests@ == old(self).requests@ + spec_auto_requests(
                old(self).known_heads@,
                old(self).configured_heads@,
                old(self).known_heads@.len() as int,
            ),
    {
        let ghost full = old(self).known_heads@;
        let ghost names = old(self).configured_heads@;
        let n = self.known_heads.len();
        let mut i: usize = 0;
        while i < n
            invariant
                0 <= i <= n,
                n == full.len(),
                spec_finalize_ok(*old(self)),
                full == old(self).known_heads@,
                names == old(self).configured_heads@,
                Self::spec_frame(*self, *old(self)),
                self.requests@ == old(self).requests@ + spec_auto_requests(full, names, i as int),
                names.len() <= self.configured_heads@.len(),
                self.configured_heads@.take(names.len() as int) == names,
                forall|m: Seq<char>|
                    #[trigger] spec_contains_name(self.configured_heads@, m) <==> (
                    spec_contains_name(names, m) || spec_restaged_before(full, names, i as int, m)),
            decreases n - i,
        {
            let name = self.known_heads[i].name.clone();
            let ghost h = full[i as int];
            if contains_name(&self.configured_heads, &name) {
                proof {
                    assert(spec_contains_name(names, h.name@)) by {
                        if !spec_contains_name(names, h.name@) {
                            assert(spec_contains_name(self.configured_heads@, h.name@));
                            assert(spec_restaged_before(full, names, i as int, h.name@));
                            let j = choose|j: int|
                                0 <= j < i && !spec_contains_name(
                                    names,
                                    (#[trigger] full[j]).name@,
                                ) && full[j].name@ == h.name@;
                            assert(spec_is_first_named(full, h.name@, i as int));
                            assert(full[j].name@ != h.name@);
                        }
                    }
                    assert(spec_auto_requests(full, names, i + 1) =~= spec_auto_requests(
                        full,
                        names,
                        i as int,
                    ));
                }
                i = i + 1;
                continue ;
            }
            proof {
                assert(!spec_contains_name(names, h.name@));
                assert(spec_is_first_named(full, h.name@, i as int));
            }
            let enabled = self.known_heads[i].enabled;
            let mirroring = match &self.known_heads[i].mirroring {
                Some(m) => Some(m.clone()),
                None => None,
            };
            let ghost before = *self;
            let outcome: Result<(), ConfigurationError> = if enabled {
                match mirroring {
                    Some(from) => self.mirror_head(&name, &from, None),
                    None => self.enable_head(&name, None),
                }
            } else {
                self.disable_head(&name)
            };
            proof {
                assert(spec_first_named_index(full, h.name@) == i as int);
                assert(outcome is Ok);
                assert(self.requests@ == before.requests@.push(spec_restage_request(h, full)));
                assert(spec_auto_requests(full, names, i + 1) =~= spec_auto_requests(
                    full,
                    names,
                    i as int,
                ).push(spec_restage_request(h, full)));
                assert(self.requests@ =~= old(self).requests@ + spec_auto_requests(
                    full,
                    names,
                    i + 1,
                ));
                assert(self.configured_heads@.take(names.len() as int) =~= names);
                assert forall|m: Seq<char>|
                    #[trigger] spec_contains_name(self.configured_heads@, m) <==> (
                    spec_contains_name(names, m) || spec_restaged_before(
                        full,
                        names,
                        i + 1,
                        m,
                    )) by {
                    let c1 = self.configured_heads@;
                    let c0 = before.configured_heads@;
                    assert(c1.len() == c0.len() + 1);
                    assert(c1.take(c0.len() as int) == c0);
                    assert(forall|p: int| 0 <= p < c0.len() ==> #[trigger] c1[p] == c0[p]);
                    if spec_contains_name(c1, m) {
                        let w = choose|w: int| 0 <= w < c1.len() && (#[trigger] c1[w])@ == m;
                        if w < c0.len() {
                            assert(spec_contains_name(c0, m));
                        } else {
                            assert(c1.last()@ == m);
                            assert(h.name@ == m);
                            assert(spec_restaged_before(full, names, i + 1, m));
                        }
                    }
                    if spec_contains_name(names, m) || spec_restaged_before(
                        full,
                        names,
                        i + 1,
                        m,
                    ) {
                        if spec_contains_name(c0, m) {
                            let w = choose|w: int| 0 <= w < c0.len() && (#[trigger] c0[w])@ == m;
                            assert(c1[w]@ == m);
                            assert(spec_contains_name(c1, m));
                        } else {
                            assert(spec_restaged_before(full, names, i + 1, m));
                            let j = choose|j: int|
                                0 <= j < i + 1 && !spec_contains_name(
                                    names,
                                    (#[trigger] full[j]).name@,
                                ) && full[j].name@ == m;
                            if j < i {
                                assert(spec_restaged_before(full, names, i as int, m));
                                assert(spec_contains_name(before.configured_heads@, m));
                            } else {
                                assert(full[j] == h);
                                assert(c1.last()@ == m);
                                assert(spec_contains_name(c1, m));
                            }
                        }
                    }
                }
            }
            i = i + 1;
        }
    }

    /// Finalizes the transaction as a validation-only request: every
    /// unstaged head is re-staged to its last known state first, and the
    /// whole request sequence, ending in Test, is handed back to send.
    pub fn test(self) -> (r: Vec<ConfigRequest>)
        requires
            spec_finalize_ok(self),
        ensures
            r@ == self.requests@ + spec_auto_requests(
                self.known_heads@,
                self.configured_heads@,
                self.known_heads@.len() as int,
            ) + seq![ConfigRequest::Test],
    {
        let mut this = self;
        this.configure_remaining_heads();
        this.requests.push(ConfigRequest::Test);
        proof {
            assert(this.requests@ =~= self.requests@ + spec_auto_requests(
                self.known_heads@,
                self.configured_heads@,
                self.known_heads@.len() as int,
            ) + seq![ConfigRequest::Test]);
        }
        this.requests
    }

    /// Finalizes the transaction as a committing request: every unstaged
    /// head is re-staged to its last known state first, and the whole
    /// request sequence, ending in Apply, is handed back to send.
    pub fn apply(self) -> (r: Vec<ConfigRequest>)
        requires
            spec_finalize_ok(self),
        ensures
            r@ == self.requests@ + spec_auto_requests(
                self.known_heads@,
                self.configured_heads@,
                self.known_heads@.len() as int,
            ) + seq![ConfigRequest::Apply],
    {
        let mut this = self;
        this.configure_remaining_heads();
        this.requests.push(ConfigRequest::Apply);
        proof {
            assert(this.requests@ =~= self.requests@ + spec_auto_requests(
                self.known_heads@,
                self.configured_heads@,
                self.known_heads@.len() as int,
            ) + seq![ConfigRequest::Apply]);
        }
        this.requests
    }

    /// Discards the transaction: nothing staged is committed or tested,
    /// the remote transaction object is only destroyed.
    pub fn cancel(self) -> (r: Vec<ConfigRequest>)
        ensures
            r@ == self.requests@.push(ConfigRequest::Destroy),
    {
        let mut this = self;
        this.requests.push(ConfigRequest::Destroy);
        this.requests
    }
}


/// The head configuration that reproduces a head's current state: its
/// present mode's size and refresh rate, and its present adaptive sync,
/// position, scale and transform.
pub open spec fn spec_current_args(h: OutputHead) -> HeadConfiguration {
    let m = match h.current_mode {
        Some(cm) => if spec_has_mode(h.modes@, cm) {
            Some(h.modes@[spec_mode_index_of(h.modes@, cm)])
        } else {
            None
        },
        None => None,
    };
    HeadConfiguration {
        size: match m {
            Some(m) => Some((m.width as u32, m.height as u32)),
            None => None,
        },
        refresh_mhz: match m {
            Some(m) => Some(m.refresh),
            None => None,
        },
        adaptive_sync: h.adaptive_sync,
        pos: Some((h.position_x, h.position_y)),
        scale_1000: Some(h.scale_1000),
        transform: h.transform,
    }
}

/// The requests that re-stage one head to its current state wholesale.
pub open spec fn spec_one_current_restage(
    h: OutputHead,
    ext_version: u32,
) -> Seq<ConfigRequest> {
    if h.enabled {
        seq![ConfigRequest::EnableHead { head: h.id }] + spec_staging_tail(
            h,
            spec_current_args(h),
            true,
            ext_version,
        )
    } else {
        seq![ConfigRequest::DisableHead { head: h.id }]
    }
}

/// The requests that re-stage the first `upto` heads wholesale.
pub open spec fn spec_full_restage(
    full: Seq<OutputHead>,
    ext_version: u32,
    upto: int,
) -> Seq<ConfigRequest>
    decreases upto,
{
    if upto <= 0 {
        Seq::<ConfigRequest>::empty()
    } else {
        spec_full_restage(full, ext_version, upto - 1) + spec_one_current_restage(
            full[upto - 1],
            ext_version,
        )
    }
}

/// A nonempty set of exact candidates has a first member: the refresh
/// selection is total wherever an exact match exists at all.
proof fn lemma_first_exact_below(head: OutputHead, size: Option<(u32, u32)>, r: int, w: int)
    requires
        0 <= w < head.modes@.len(),
        spec_is_candidate(size, head.current_mode, head.modes@[w]),
        head.modes@[w].refresh == r,
    ensures
        exists|i: int| spec_refresh_choice(head, size, r, i),
    decreases w,
{
    let ms = head.modes@;
    let cur = head.current_mode;
    if exists|p: int|
        0 <= p < w && spec_is_candidate(size, cur, #[trigger] ms[p]) && ms[p].refresh == r {
        let p = choose|p: int|
            0 <= p < w && spec_is_candidate(size, cur, #[trigger] ms[p]) && ms[p].refresh == r;
        lemma_first_exact_below(head, size, r, p);
    } else {
        assert(spec_refresh_choice(head, size, r, w));
    }
}

/// What wholesale re-staging needs to not fail: names unique, no enabled
/// head mirroring, every enabled head on a live current mode of sane
/// dimensions.  Outside these bounds re-staging would trip over its own
/// refusals.
pub open spec fn spec_restage_all_ok(m: Model) -> bool {
    forall|i: int|
        0 <= i < m.heads@.len() ==> {
            let h = #[trigger] m.heads@[i];
            &&& spec_is_first_named(m.heads@, h.name@, i)
            &&& (h.enabled ==> {
                &&& h.mirroring is None
                &&& match h.current_mode {
                    Some(cm) => spec_has_mode(h.modes@, cm) && {
                        let md = h.modes@[spec_mode_index_of(h.modes@, cm)];
                        md.width >= 0 && md.height >= 0
                    },
                    None => false,
                }
            })
        }
}

impl Model {
    /// Opens a configuration transaction against the present serial, with
    /// a snapshot of every known head: interleaved dispatch activity
    /// cannot touch a transaction already opened.
    pub fn create_output_config(&self) -> (c: Configuration)
        requires
            self.manager_bound,
        ensures
            c.serial == self.serial,
            c.has_extension == self.extension_bound,
            c.extension_version == self.extension_version,
            c.known_heads@.len() == self.heads@.len(),
            forall|i: int|
                0 <= i < self.heads@.len() ==> spec_head_like(
                    #[trigger] c.known_heads@[i],
                    self.heads@[i],
                ),
            c.configured_heads@ == Seq::<String>::empty(),
            c.requests@ == Seq::<ConfigRequest>::empty(),
    {
        let mut known: Vec<OutputHead> = Vec::new();
        let mut i: usize = 0;
        while i < self.heads.len()
            invariant
                0 <= i <= self.heads@.len(),
                known@.len() == i,
                forall|p: int|
                    0 <= p < i ==> spec_head_like(#[trigger] known@[p], self.heads@[p]),
            decreases self.heads@.len() - i,
        {
            let copy = self.heads[i].duplicate();
            known.push(copy);
            i = i + 1;
        }
        Configuration {
            serial: self.serial,
            has_extension: self.extension_bound,
            extension_version: self.extension_version,
            known_heads: known,
            configured_heads: Vec::new(),
            requests: Vec::new(),
        }
    }

    /// Picks the head whose paired extension object the Xwayland-primary
    /// designation goes to, or `None` to clear it.  Needs the extension,
    /// new enough; a name that resolves to no extension-paired head is
    /// unknown.
    pub fn set_xwayland_primary(&self, output: Option<&String>) -> (r: Result<
        Option<u64>,
        ConfigurationError,
    >)
        ensures
            !self.extension_bound ==> r == Err::<Option<u64>, ConfigurationError>(
                ConfigurationError::NoCosmicExtension,
            ),
            self.extension_bound && self.extension_version < SET_XWAYLAND_PRIMARY_SINCE ==> r
                == Err::<Option<u64>, ConfigurationError>(
                ConfigurationError::UnsupportedXwaylandPrimary,
            ),
            self.extension_bound && self.extension_version >= SET_XWAYLAND_PRIMARY_SINCE ==> match output {
                None => r == Ok::<Option<u64>, ConfigurationError>(None),
                Some(name) => {
                    if exists|i: int|
                        0 <= i < self.heads@.len() && (#[trigger] self.heads@[i]).has_extension_head
                            && self.heads@[i].name@ == name@ {
                        exists|i: int|
                            {
                                &&& 0 <= i < self.heads@.len()
                                &&& (#[trigger] self.heads@[i]).has_extension_head
                                &&& self.heads@[i].name@ == name@
                                &&& forall|p: int|
                                    0 <= p < i ==> !((#[trigger] self.heads@[p]).has_extension_head
                                        && self.heads@[p].name@ == name@)
                                &&& r == Ok::<Option<u64>, ConfigurationError>(
                                    Some(self.heads@[i].id),
                                )
                            }
                    } else {
                        r == Err::<Option<u64>, ConfigurationError>(
                            ConfigurationError::UnknownOutput,
                        )
                    }
                },
            },
    {
        if !self.extension_bound {
            return Err(ConfigurationError::NoCosmicExtension);
        }
        if self.extension_version < SET_XWAYLAND_PRIMARY_SINCE {
            return Err(ConfigurationError::UnsupportedXwaylandPrimary);
        }
        match output {
            None => Ok(None),
            Some(name) => {
                let mut k: usize = 0;
                while k < self.heads.len()
                    invariant
                        0 <= k <= self.heads@.len(),
                        self.extension_bound,
                        self.extension_version >= SET_XWAYLAND_PRIMARY_SINCE,
                        output == Some(name),
                        forall|p: int|
                            0 <= p < k ==> !((#[trigger] self.heads@[p]).has_extension_head
                                && self.heads@[p].name@ == name@),
                    decreases self.heads@.len() - k,
                {
                    if self.heads[k].has_extension_head && *name == self.heads[k].name {
                        return Ok(Some(self.heads[k].id));
                    }
                    k = k + 1;
                }
                Err(ConfigurationError::UnknownOutput)
            },
        }
    }

    /// Commits the model's own current state wholesale: every known head
    /// is staged to exactly what it already reports, and the resulting
    /// request sequence, ending in Apply, is handed back to send.  Needs
    /// the extension, new enough, and a bound manager.
    pub fn apply_current_config(&self) -> (r: Result<Vec<ConfigRequest>, ConfigurationError>)
        requires
            self.wf(),
            self.extension_bound && self.extension_version >= SET_XWAYLAND_PRIMARY_SINCE ==> (
            self.manager_bound && spec_restage_all_ok(*self)),
        ensures
            !self.extension_bound ==> r == Err::<Vec<ConfigRequest>, ConfigurationError>(
                ConfigurationError::NoCosmicExtension,
            ),
            self.extension_bound && self.extension_version < SET_XWAYLAND_PRIMARY_SINCE ==> r
                == Err::<Vec<ConfigRequest>, ConfigurationError>(
                ConfigurationError::UnsupportedXwaylandPrimary,
            ),
            self.extension_bound && self.extension_version >= SET_XWAYLAND_PRIMARY_SINCE
                ==> match r {
                Ok(requests) => requests@ == spec_full_restage(
                    self.heads@,
                    self.extension_version,
                    self.heads@.len() as int,
                ).push(ConfigRequest::Apply),
                Err(_) => false,
            },
    {
        if !self.extension_bound {
            return Err(ConfigurationError::NoCosmicExtension);
        }
        if self.extension_version < SET_XWAYLAND_PRIMARY_SINCE {
            return Err(ConfigurationError::UnsupportedXwaylandPrimary);
        }
        let mut config = self.create_output_config();
        let ghost full = config.known_heads@;
        let n = config.known_heads.len();
        let mut i: usize = 0;
        while i < n
            invariant
                0 <= i <= n,
                n == full.len(),
                full == config.known_heads@,
                self.wf(),
                spec_restage_all_ok(*self),
                self.extension_bound,
                self.extension_version >= SET_XWAYLAND_PRIMARY_SINCE,
                config.has_extension,
                config.extension_version == self.extension_version,
                full.len() == self.heads@.len(),
                forall|p: int|
                    0 <= p < full.len() ==> spec_head_like(#[trigger] full[p], self.heads@[p]),
                config.requests@ == spec_full_restage(
                    self.heads@,
                    self.extension_version,
                    i as int,
                ),
                config.configured_heads@.len() == i,
                forall|p: int|
                    0 <= p < i ==> (#[trigger] config.configured_heads@[p])@ == full[p].name@,
                forall|m: Seq<char>|
                    #[trigger] spec_contains_name(config.configured_heads@, m) <==> exists|p: int|
                        0 <= p < i && (#[trigger] full[p]).name@ == m,
            decreases n - i,
        {
            let ghost h = self.heads@[i as int];
            let ghost hc = full[i as int];
            proof {
                assert(spec_head_like(hc, h));
                assert(spec_is_first_named(self.heads@, h.name@, i as int));
                assert(spec_is_first_named(full, hc.name@, i as int)) by {
                    assert forall|p: int| 0 <= p < i implies (#[trigger] full[p]).name@
                        != hc.name@ by {
                        assert(spec_head_like(full[p], self.heads@[p]));
                    }
                }
                assert(!spec_contains_name(config.configured_heads@, hc.name@)) by {
                    if spec_contains_name(config.configured_heads@, hc.name@) {
                        let p = choose|p: int|
                            0 <= p < i && (#[trigger] full[p]).name@ == hc.name@;
                        assert(full[p].name@ != hc.name@);
                    }
                }
            }
            let name = config.known_heads[i].name.clone();
            let enabled = config.known_heads[i].enabled;
            let ghost before = config;
            let outcome: Result<(), ConfigurationError> = if enabled {
                proof {
                    assert(hc.wf()) by {
                        assert(hc.modes@ == h.modes@ && hc.current_mode == h.current_mode);
                        assert(h.wf());
                    }
                }
                let current = config.known_heads[i].current_mode;
                let cm = match current {
                    Some(cm) => cm,
                    None => {
                        proof {
                            assert(false);
                        }
                        0
                    },
                };
                let mode_index = match find_mode_index(&config.known_heads[i].modes, cm) {
                    Some(mi) => mi,
                    None => {
                        proof {
                            assert(false);
                        }
                        0
                    },
                };
                let md = config.known_heads[i].modes[mode_index];
                proof {
                    assert(spec_mode_index_of(hc.modes@, cm) == mode_index as int);
                    assert(md == hc.modes@[spec_mode_index_of(hc.modes@, cm)]);
                }
                let args = HeadConfiguration {
                    size: Some((md.width as u32, md.height as u32)),
                    refresh_mhz: Some(md.refresh),
                    adaptive_sync: config.known_heads[i].adaptive_sync,
                    pos: Some((config.known_heads[i].position_x, config.known_heads[i].position_y)),
                    scale_1000: Some(config.known_heads[i].scale_1000),
                    transform: config.known_heads[i].transform,
                };
                proof {
                    assert(args == spec_current_args(hc));
                    assert(spec_is_candidate(args.size, hc.current_mode, md)) by {
                        assert(md.width >= 0 && md.height >= 0);
                    }
                    lemma_first_exact_below(
                        hc,
                        args.size,
                        md.refresh as int,
                        mode_index as int,
                    );
                    let w = choose|w: int|
                        spec_refresh_choice(hc, args.size, md.refresh as int, w);
                    assert(spec_mode_choice(hc, args, w));
                    assert(spec_some_mode_choice(hc, args));
                    assert(!spec_vrr_unsupported(args, true, self.extension_version)) by {
                        assert(self.extension_version >= SET_ADAPTIVE_SYNC_EXT_SINCE);
                    }
                }
                config.enable_head(&name, Some(args))
            } else {
                config.disable_head(&name)
            };
            proof {
                assert(spec_first_named_index(full, hc.name@) == i as int);
                assert(outcome is Ok);
                assert(config.requests@ =~= spec_full_restage(
                    self.heads@,
                    self.extension_version,
                    i + 1,
                )) by {
                    let h0 = self.heads@[i as int];
                    assert(spec_current_args(h0) == spec_current_args(hc));
                    if hc.enabled {
                        lemma_mode_choice_like(hc, h0, spec_current_args(hc));
                        assert(spec_staging_tail(
                            hc,
                            spec_current_args(hc),
                            true,
                            self.extension_version,
                        ) == spec_staging_tail(
                            h0,
                            spec_current_args(h0),
                            true,
                            self.extension_version,
                        ));
                    }
                    assert(spec_one_current_restage(h0, self.extension_version)
                        == spec_one_current_restage(hc, self.extension_version));
                }
                assert(config.configured_heads@.len() == i + 1);
                assert(config.configured_heads@.last()@ == hc.name@);
                assert forall|p: int| 0 <= p < i + 1 implies (
                #[trigger] config.configured_heads@[p])@ == full[p].name@ by {
                    if p < i {
                        assert(config.configured_heads@[p] == before.configured_heads@[p]);
                    }
                }
                assert forall|m: Seq<char>|
                    #[trigger] spec_contains_name(config.configured_heads@, m) <==> exists|p: int|
                        0 <= p < i + 1 && (#[trigger] full[p]).name@ == m by {
                    if spec_contains_name(config.configured_heads@, m) {
                        let w = choose|w: int|
                            0 <= w < config.configured_heads@.len() && (
                            #[trigger] config.configured_heads@[w])@ == m;
                        assert(full[w].name@ == m);
                    }
                    if exists|p: int| 0 <= p < i + 1 && (#[trigger] full[p]).name@ == m {
                        let p = choose|p: int| 0 <= p < i + 1 && (#[trigger] full[p]).name@ == m;
                        assert(config.configured_heads@[p]@ == m);
                    }
                }
            }
            i = i + 1;
        }
        proof {
            assert(spec_finalize_ok(config)) by {
                assert forall|q: int|
                    0 <= q < config.known_heads@.len() implies spec_contains_name(
                    config.configured_heads@,
                    (#[trigger] config.known_heads@[q]).name@,
                ) by {
                    assert(full[q].name@ == config.known_heads@[q].name@);
                }
            }
        }
        proof {
            lemma_auto_requests_all_staged(
                config.known_heads@,
                config.configured_heads@,
                config.known_heads@.len() as int,
            );
        }
        let ghost staged_requests = config.requests@;
        let requests = config.apply();
        proof {
            assert(requests@ =~= spec_full_restage(
                self.heads@,
                self.extension_version,
                self.heads@.len() as int,
            ).push(ConfigRequest::Apply));
        }
        Ok(requests)
    }
}

/// Finalization of a transaction with every name already staged appends
/// nothing.
proof fn lemma_auto_requests_all_staged(full: Seq<OutputHead>, names: Seq<String>, upto: int)
    requires
        upto <= full.len(),
        forall|i: int|
            0 <= i < upto ==> spec_contains_name(names, (#[trigger] full[i]).name@),
    ensures
        spec_auto_requests(full, names, upto) == Seq::<ConfigRequest>::empty(),
    decreases upto,
{
    if upto > 0 {
        lemma_auto_requests_all_staged(full, names, upto - 1);
        assert(spec_auto_requests(full, names, upto) =~= Seq::<ConfigRequest>::empty());
    }
}


/// Refresh-rate matching is deterministic: no two indices can both be the
/// selected mode of one request.
pub proof fn lemma_mode_choice_unique(h: OutputHead, args: HeadConfiguration, i: int, j: int)
    requires
        spec_mode_choice(h, args, i),
        spec_mode_choice(h, args, j),
    ensures
        i == j,
{
    let ms = h.modes@;
    let cur = h.current_mode;
    match args.refresh_mhz {
        Some(r) => {
            if i < j {
                if ms[j].refresh == r as int {
                    assert(!(spec_is_candidate(args.size, cur, ms[i]) && ms[i].refresh
                        == r as int));
                } else {
                    assert(spec_abs(ms[i].refresh - r) > spec_abs(ms[j].refresh - r));
                    assert(spec_abs(ms[j].refresh - r) >= spec_abs(ms[i].refresh - r));
                }
            }
            if j < i {
                if ms[i].refresh == r as int {
                    assert(!(spec_is_candidate(args.size, cur, ms[j]) && ms[j].refresh
                        == r as int));
                } else {
                    assert(spec_abs(ms[j].refresh - r) > spec_abs(ms[i].refresh - r));
                    assert(spec_abs(ms[i].refresh - r) >= spec_abs(ms[j].refresh - r));
                }
            }
        },
        None => {
            if i < j {
                assert(!spec_is_candidate(args.size, cur, ms[i]));
            }
            if j < i {
                assert(!spec_is_candidate(args.size, cur, ms[j]));
            }
        },
    }
}

/// Mode selection reads only the held modes and the current-mode
/// reference: two heads that agree there select alike.
proof fn lemma_mode_choice_like(h1: OutputHead, h2: OutputHead, args: HeadConfiguration)
    requires
        h1.modes@ == h2.modes@,
        h1.current_mode == h2.current_mode,
    ensures
        forall|i: int| spec_mode_choice(h1, args, i) == spec_mode_choice(h2, args, i),
        spec_some_mode_choice(h1, args) == spec_some_mode_choice(h2, args),
        spec_some_mode_choice(h1, args) ==> spec_mode_choice_index(h1, args)
            == spec_mode_choice_index(h2, args),
{
    assert forall|i: int| spec_mode_choice(h1, args, i) == spec_mode_choice(h2, args, i) by {}
    if spec_some_mode_choice(h1, args) {
        let w = choose|w: int| spec_mode_choice(h1, args, w);
        assert(spec_mode_choice(h2, args, w));
        assert(spec_some_mode_choice(h2, args));
    }
    if spec_some_mode_choice(h2, args) {
        let w = choose|w: int| spec_mode_choice(h2, args, w);
        assert(spec_mode_choice(h1, args, w));
        assert(spec_some_mode_choice(h1, args));
    }
    if spec_some_mode_choice(h1, args) {
        let c1 = spec_mode_choice_index(h1, args);
        let c2 = spec_mode_choice_index(h2, args);
        assert(spec_mode_choice(h1, args, c1));
        assert(spec_mode_choice(h2, args, c2));
        assert(spec_mode_choice(h1, args, c2));
        lemma_mode_choice_unique(h1, args, c1, c2);
    }
}


/// No head is silently dropped by finalization: the re-stage request of
/// every known head whose name was not explicitly staged stands in the
/// appended request sequence.
pub proof fn lemma_finalize_covers(full: Seq<OutputHead>, names: Seq<String>, i: int)
    requires
        0 <= i < full.len(),
        !spec_contains_name(names, full[i].name@),
    ensures
        spec_auto_requests(full, names, full.len() as int).contains(
            spec_restage_request(full[i], full),
        ),
{
    lemma_auto_requests_cover_from(full, names, i, full.len() as int);
}

/// The re-stage request of an unstaged head at `i` stands in the first
/// `upto` auto-staged requests, for every `upto` beyond `i`.
proof fn lemma_auto_requests_cover_from(
    full: Seq<OutputHead>,
    names: Seq<String>,
    i: int,
    upto: int,
)
    requires
        0 <= i < upto <= full.len(),
        !spec_contains_name(names, full[i].name@),
    ensures
        spec_auto_requests(full, names, upto).contains(spec_restage_request(full[i], full)),
    decreases upto,
{
    let req = spec_restage_request(full[i], full);
    if upto == i + 1 {
        let pre = spec_auto_requests(full, names, i);
        assert(spec_auto_requests(full, names, upto) == pre + seq![req]);
        assert(spec_auto_requests(full, names, upto)[pre.len() as int] == req);
    } else {
        lemma_auto_requests_cover_from(full, names, i, upto - 1);
        let pre = spec_auto_requests(full, names, upto - 1);
        let w = choose|w: int| 0 <= w < pre.len() && pre[w] == req;
        assert(spec_auto_requests(full, names, upto)[w] == req);
    }
}

} // verus!
