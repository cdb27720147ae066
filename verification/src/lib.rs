//! Client-side state for a display-output-management wire protocol.
//!
//! The crate mirrors remote Mode, Head and Manager objects from streamed
//! protocol events, stages configuration transactions as validated request
//! sequences, computes gap-free output layouts, and carries terminal
//! transaction outcomes through a message channel.  All protocol and socket
//! traffic itself is left to the embedding program: the library works on
//! plain values (object identifiers, names, coordinates) and hands back the
//! requests and actions to perform.

pub mod adaptive_sync;
pub mod channel;
pub mod config_value;
pub mod layout;
pub mod list;
pub mod message;
pub mod model;
pub mod output_head;
pub mod output_mode;
pub mod transaction;
pub mod transform;

pub use adaptive_sync::AdaptiveSync;
pub use adaptive_sync::AdaptiveSyncAvailability;
pub use adaptive_sync::AdaptiveSyncState;
pub use channel::ChannelState;
pub use channel::RecvPoll;
pub use config_value::ConfigValue;
pub use layout::NearestSide;
pub use layout::PositionUpdate;
pub use layout::Rectangle;
pub use layout::auto_correct_offsets;
pub use layout::display;
pub use message::Message;
pub use model::Action;
pub use model::ConfigOutcome;
pub use model::Model;
pub use model::outcome_message;
pub use output_head::ExtensionHeadEvent;
pub use output_head::HeadEvent;
pub use output_head::ModeEvent;
pub use output_head::OutputHead;
pub use output_mode::OutputMode;
pub use output_mode::sort_modes;
pub use transaction::ConfigRequest;
pub use transaction::Configuration;
pub use transaction::ConfigurationError;
pub use transaction::HeadConfiguration;
pub use transform::Transform;
pub use transform::is_landscape;
