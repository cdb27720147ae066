use vstd::prelude::*;

use crate::config_value::ConfigValue;
use crate::config_value::ConfigValueView;

verus! {

/// The tri-state adaptive-sync (variable refresh rate) setting carried by
/// the vendor extension.  The base protocol only knows the two-state form;
/// asking for `Automatic` without the extension is a capability error.
#[derive(Clone, Copy, Debug, PartialEq, Eq, Structural)]
pub enum AdaptiveSync {
    Always,
    Automatic,
    Disabled,
}

/// The adaptive-sync setting as the interchange format writes it.
#[derive(Clone, Copy, Debug, PartialEq, Eq, Structural)]
pub enum AdaptiveSyncState {
    Always,
    Auto,
    Disabled,
}

/// Whether a head's hardware can drive adaptive sync at all, as reported by
/// the vendor extension.
#[derive(Clone, Copy, Debug, PartialEq, Eq, Structural)]
pub enum AdaptiveSyncAvailability {
    Supported,
    RequiresModeset,
    Unsupported,
}

impl AdaptiveSync {
    /// The same setting under the interchange format's names.
    pub fn to_state(&self) -> (r: AdaptiveSyncState)
        ensures
            r == spec_sync_to_state(*self),
    {
        match self {
            AdaptiveSync::Always => AdaptiveSyncState::Always,
            AdaptiveSync::Automatic => AdaptiveSyncState::Auto,
            AdaptiveSync::Disabled => AdaptiveSyncState::Disabled,
        }
    }
}

/// The interchange name of each tri-state setting.
pub open spec fn spec_sync_to_state(s: AdaptiveSync) -> AdaptiveSyncState {
    match s {
        AdaptiveSync::Always => AdaptiveSyncState::Always,
        AdaptiveSync::Automatic => AdaptiveSyncState::Auto,
        AdaptiveSync::Disabled => AdaptiveSyncState::Disabled,
    }
}

impl AdaptiveSyncState {
    /// The adaptive-sync setting a config-file value names: plain booleans
    /// mean always-on or off, the text `automatic` means automatic, and
    /// anything else is refused.
    pub fn try_from_kdl_value(value: &ConfigValue) -> (r: Option<AdaptiveSyncState>)
        ensures
            r == spec_sync_state_from_value(value@),
    {
        match value {
            ConfigValue::Bool(v) => Some(
                if *v {
                    AdaptiveSyncState::Always
                } else {
                    AdaptiveSyncState::Disabled
                },
            ),
            ConfigValue::Text(s) => {
                if *s == "automatic".to_owned() {
                    Some(AdaptiveSyncState::Auto)
                } else {
                    None
                }
            },
            _ => None,
        }
    }

    /// The setting written back out as a config-file value.
    pub fn to_kdl_value(&self) -> (r: ConfigValue)
        ensures
            r@ == spec_sync_state_to_value(*self),
    {
        match self {
            AdaptiveSyncState::Disabled => ConfigValue::Bool(false),
            AdaptiveSyncState::Always => ConfigValue::Bool(true),
            AdaptiveSyncState::Auto => ConfigValue::Text("automatic".to_owned()),
        }
    }

    /// The textual name of the setting.
    pub fn to_text(&self) -> (r: String)
        ensures
            r@ == spec_sync_state_text(*self),
    {
        match self {
            AdaptiveSyncState::Always => "true",
            AdaptiveSyncState::Auto => "automatic",
            AdaptiveSyncState::Disabled => "false",
        }.to_owned()
    }
}

/// The setting a config-file value names, if any.
pub open spec fn spec_sync_state_from_value(v: ConfigValueView) -> Option<AdaptiveSyncState> {
    match v {
        ConfigValueView::Bool(b) => Some(
            if b {
                AdaptiveSyncState::Always
            } else {
                AdaptiveSyncState::Disabled
            },
        ),
        ConfigValueView::Text(s) => if s == "automatic"@ {
            Some(AdaptiveSyncState::Auto)
        } else {
            None
        },
        _ => None,
    }
}

/// The config-file value each setting is written as.
pub open spec fn spec_sync_state_to_value(s: AdaptiveSyncState) -> ConfigValueView {
    match s {
        AdaptiveSyncState::Disabled => ConfigValueView::Bool(false),
        AdaptiveSyncState::Always => ConfigValueView::Bool(true),
        AdaptiveSyncState::Auto => ConfigValueView::Text("automatic"@),
    }
}

/// The textual name of each setting.
pub open spec fn spec_sync_state_text(s: AdaptiveSyncState) -> Seq<char> {
    match s {
        AdaptiveSyncState::Always => "true"@,
        AdaptiveSyncState::Auto => "automatic"@,
        AdaptiveSyncState::Disabled => "false"@,
    }
}

/// Writing a setting out as a config-file value and reading it back gives
/// the setting again.
pub proof fn lemma_sync_state_value_round_trip(s: AdaptiveSyncState)
    ensures
        spec_sync_state_from_value(spec_sync_state_to_value(s)) == Some(s),
{
}

impl AdaptiveSyncAvailability {
    /// The availability a config-file value names: plain booleans mean
    /// supported or unsupported, the text `requires_modeset` its own state,
    /// and anything else is refused.
    pub fn try_from_kdl_value(value: &ConfigValue) -> (r: Option<AdaptiveSyncAvailability>)
        ensures
            r == spec_sync_availability_from_value(value@),
    {
        match value {
            ConfigValue::Bool(v) => Some(
                if *v {
                    AdaptiveSyncAvailability::Supported
                } else {
                    AdaptiveSyncAvailability::Unsupported
                },
            ),
            ConfigValue::Text(s) => {
                if *s == "requires_modeset".to_owned() {
                    Some(AdaptiveSyncAvailability::RequiresModeset)
                } else {
                    None
                }
            },
            _ => None,
        }
    }

    /// The availability written back out as a config-file value.
    pub fn to_kdl_value(&self) -> (r: ConfigValue)
        ensures
            r@ == spec_sync_availability_to_value(*self),
    {
        match self {
            AdaptiveSyncAvailability::Unsupported => ConfigValue::Bool(false),
            AdaptiveSyncAvailability::Supported => ConfigValue::Bool(true),
            AdaptiveSyncAvailability::RequiresModeset => ConfigValue::Text(
                "requires_modeset".to_owned(),
            ),
        }
    }

    /// The textual name of the availability.
    pub fn to_text(&self) -> (r: String)
        ensures
            r@ == spec_sync_availability_text(*self),
    {
        match self {
            AdaptiveSyncAvailability::Supported => "true",
            AdaptiveSyncAvailability::RequiresModeset => "requires_modeset",
            AdaptiveSyncAvailability::Unsupported => "false",
        }.to_owned()
    }
}

/// The availability a config-file value names, if any.
pub open spec fn spec_sync_availability_from_value(v: ConfigValueView) -> Option<
    AdaptiveSyncAvailability,
> {
    match v {
        ConfigValueView::Bool(b) => Some(
            if b {
                AdaptiveSyncAvailability::Supported
            } else {
                AdaptiveSyncAvailability::Unsupported
            },
        ),
        ConfigValueView::Text(s) => if s == "requires_modeset"@ {
            Some(AdaptiveSyncAvailability::RequiresModeset)
        } else {
            None
        },
        _ => None,
    }
}

/// The config-file value each availability is written as.
pub open spec fn spec_sync_availability_to_value(a: AdaptiveSyncAvailability) -> ConfigValueView {
    match a {
        AdaptiveSyncAvailability::Unsupported => ConfigValueView::Bool(false),
        AdaptiveSyncAvailability::Supported => ConfigValueView::Bool(true),
        AdaptiveSyncAvailability::RequiresModeset => ConfigValueView::Text("requires_modeset"@),
    }
}

/// The textual name of each availability.
pub open spec fn spec_sync_availability_text(a: AdaptiveSyncAvailability) -> Seq<char> {
    match a {
        AdaptiveSyncAvailability::Supported => "true"@,
        AdaptiveSyncAvailability::RequiresModeset => "requires_modeset"@,
        AdaptiveSyncAvailability::Unsupported => "false"@,
    }
}

/// Writing an availability out as a config-file value and reading it back
/// gives the availability again.
pub proof fn lemma_sync_availability_value_round_trip(a: AdaptiveSyncAvailability)
    ensures
        spec_sync_availability_from_value(spec_sync_availability_to_value(a)) == Some(a),
{
}

} // verus!
