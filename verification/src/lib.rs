//! A verified core for a Bevy plugin that connects a Bevy application to SpacetimeDB:
//! the plugin's configuration and registrations, the choice of table messages, the
//! registries of message channels and senders, and the plan followed when the
//! connection is made.

pub mod channels;
pub mod plugin;
pub mod tables;

pub use channels::{ChannelInstall, MessageChannels, MessageSenders, SenderSlot};
pub use plugin::{
    Compression, ConnectionParams, PluginError, Registration, Startup, StdbPlugin,
    StdbPluginConfig, TableRegistration,
};
pub use tables::{MessageKind, TableMessages, TableMessagesWithoutPrimaryKey};
