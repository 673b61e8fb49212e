//! Messaging, dispatch and plugin lifecycle for a plugin-based desktop shell.
//!
//! Plugins exchange typed, prioritised messages. A controller filters what it
//! receives, orders accepted payloads by priority in a bounded queue and
//! dispatches them to the enabled plugin that serves each payload's type.
use vstd::prelude::*;

pub mod priority;
pub mod version;
pub mod messages;
pub mod queue;
pub mod filter;
pub mod registry;
pub mod controller;
pub mod bus;
pub mod manifest;
pub mod window;
pub mod plugin_list;

pub use priority::Priority;
pub use version::{reload_allowed, PluginVersion, ReloadPolicy, VersionComparable, VersionEquatable, Versioned};
pub use messages::{
    ConfigData, ControllerMessage, ControllerPlugin, ControllerPluginMessage, CriticalDataPayload,
    LogLevel, MenuMessage, Message, PluginControlMessage, PluginMessage, PluginPayload, PluginType,
    PrioritizedMessage, SampleMessage, ScreenPos, WindowControllerMessage,
    WindowControllerPluginMessage, WindowPluginMessage,
};
pub use queue::{PriorityQueue, MAX_QUEUE_CAPACITY};
pub use filter::{DynamicMessageFilter, Filter, FilterChain, MessageFilter, MyConcreteFilter, PriorityFilter};
pub use registry::{LoadError, Plugin, PluginRegistry};
pub use controller::{sort_outputs, ControllerSettings, Cycle, CycleReport, Dispatch, Intake, Outputs, WindowControllerPlugin};
pub use bus::{
    BusError, ChannelMessageHandler, DefaultMessageHandler, MessageBus, MessageHandler, MessageSystem, Poll,
    SendOutcome,
};
pub use manifest::PluginManifest;
pub use window::{
    handle_ui_view_message, handle_window_interaction, DraggedWindow, Frame, WindowInteraction,
    WindowManagementPlugin, WindowPlugin, WindowResponse, WindowState,
};
pub use plugin_list::plugin_paths;
