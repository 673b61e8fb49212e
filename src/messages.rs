use vstd::prelude::*;
use crate::priority::Priority;

verus! {

/// The category of plugin that a payload is meant for.
#[derive(Clone, Copy, Debug, PartialEq, Eq, Structural, Hash)]
pub enum PluginType {
    Window,
    WindowController,
    UI,
    Audio,
    Data,
}

/// Number of plugin types.
pub const PLUGIN_TYPES: usize = 5;

impl PluginType {
    pub open spec fn spec_index(self) -> nat {
        match self {
            PluginType::Window => 0,
            PluginType::WindowController => 1,
            PluginType::UI => 2,
            PluginType::Audio => 3,
            PluginType::Data => 4,
        }
    }

    /// A distinct small number for each plugin type.
    pub fn index(&self) -> (r: usize)
        ensures
            r == self.spec_index(),
            r < PLUGIN_TYPES,
    {
        match self {
            PluginType::Window => 0,
            PluginType::WindowController => 1,
            PluginType::UI => 2,
            PluginType::Audio => 3,
            PluginType::Data => 4,
        }
    }
}

/// A point on screen, in whole pixels.
#[derive(Clone, Copy, Debug, PartialEq, Eq, Structural)]
pub struct ScreenPos {
    pub x: i32,
    pub y: i32,
}

/// Requests addressed to a window controller.
#[derive(Clone, Copy, Debug, PartialEq, Eq, Structural)]
pub enum WindowControllerMessage {
    RequestCloseWindow { window_index: usize, priority: Priority },
    RequestAddWindow { priority: Priority },
}

/// Messages addressed to a controller, by controller kind.
#[derive(Clone, Copy, Debug, PartialEq, Eq, Structural)]
pub enum ControllerMessage {
    WindowController(WindowControllerMessage),
}

/// Payloads understood by the window plugin.
#[derive(Clone, Copy, Debug, PartialEq, Eq, Structural)]
pub enum WindowPluginMessage {
    AddWindow,
    ConfirmedCloseWindow(usize),
    MinimizeWindow(usize),
    DragWindowStart(usize, ScreenPos),
    DragWindowMove(ScreenPos),
    DragWindowEnd,
    CollapseWindow(usize),
}

/// Payloads understood by the window controller plugin.
#[derive(Debug)]
pub enum WindowControllerPluginMessage {
    RequestAddWindow,
    AddWindow { title: String, content: String, plugin_type: PluginType },
    RequestCloseWindow { window_id: usize },
    CloseWindow { window_id: usize },
    MinimizeWindow { window_id: usize },
    MaximizeWindow { window_id: usize },
    DragWindowStart { window_id: usize, position: ScreenPos },
    DragWindowMove { window_id: usize, position: ScreenPos },
    DragWindowEnd { window_id: usize, final_position: ScreenPos },
    WindowAdded { window_id: usize },
    WindowClosed { window_id: usize },
    UpdateWindowContent { window_id: usize, new_content: String },
    RequestWindowList,
}

/// A payload that can be queued by priority and routed by plugin type.
pub trait PluginMessage {
    spec fn spec_priority(&self) -> Priority;

    spec fn spec_plugin_type(&self) -> PluginType;

    fn priority(&self) -> (r: Priority)
        ensures
            r == self.spec_priority(),
    ;

    fn plugin_type(&self) -> (r: PluginType)
        ensures
            r == self.spec_plugin_type(),
    ;
}

/// The priority that each window controller request carries by default.
pub open spec fn window_controller_priority(m: WindowControllerPluginMessage) -> Priority {
    match m {
        WindowControllerPluginMessage::RequestAddWindow => Priority::Normal,
        WindowControllerPluginMessage::AddWindow { .. } => Priority::Normal,
        WindowControllerPluginMessage::RequestCloseWindow { .. } => Priority::High,
        WindowControllerPluginMessage::CloseWindow { .. } => Priority::High,
        WindowControllerPluginMessage::MinimizeWindow { .. } => Priority::Low,
        WindowControllerPluginMessage::MaximizeWindow { .. } => Priority::Low,
        WindowControllerPluginMessage::DragWindowStart { .. } => Priority::High,
        WindowControllerPluginMessage::DragWindowMove { .. } => Priority::High,
        WindowControllerPluginMessage::DragWindowEnd { .. } => Priority::High,
        WindowControllerPluginMessage::WindowAdded { .. } => Priority::Normal,
        WindowControllerPluginMessage::WindowClosed { .. } => Priority::Normal,
        WindowControllerPluginMessage::UpdateWindowContent { .. } => Priority::Normal,
        WindowControllerPluginMessage::RequestWindowList => Priority::Low,
    }
}

impl PluginMessage for WindowControllerPluginMessage {
    open spec fn spec_priority(&self) -> Priority {
        window_controller_priority(*self)
    }

    open spec fn spec_plugin_type(&self) -> PluginType {
        PluginType::WindowController
    }

    fn priority(&self) -> (r: Priority) {
        match self {
            WindowControllerPluginMessage::RequestAddWindow => Priority::Normal,
            WindowControllerPluginMessage::AddWindow { .. } => Priority::Normal,
            WindowControllerPluginMessage::RequestCloseWindow { .. } => Priority::High,
            WindowControllerPluginMessage::CloseWindow { .. } => Priority::High,
            WindowControllerPluginMessage::MinimizeWindow { .. } => Priority::Low,
            WindowControllerPluginMessage::MaximizeWindow { .. } => Priority::Low,
            WindowControllerPluginMessage::DragWindowStart { .. } => Priority::High,
            WindowControllerPluginMessage::DragWindowMove { .. } => Priority::High,
            WindowControllerPluginMessage::DragWindowEnd { .. } => Priority::High,
            WindowControllerPluginMessage::WindowAdded { .. } => Priority::Normal,
            WindowControllerPluginMessage::WindowClosed { .. } => Priority::Normal,
            WindowControllerPluginMessage::UpdateWindowContent { .. } => Priority::Normal,
            WindowControllerPluginMessage::RequestWindowList => Priority::Low,
        }
    }

    fn plugin_type(&self) -> (r: PluginType) {
        PluginType::WindowController
    }
}

impl Clone for WindowControllerPluginMessage {
    fn clone(&self) -> (r: Self)
        ensures
            r == *self,
    {
        match self {
            WindowControllerPluginMessage::RequestAddWindow => WindowControllerPluginMessage::RequestAddWindow,
            WindowControllerPluginMessage::AddWindow { title, content, plugin_type } => {
                WindowControllerPluginMessage::AddWindow {
                    title: title.clone(),
                    content: content.clone(),
                    plugin_type: *plugin_type,
                }
            },
            WindowControllerPluginMessage::RequestCloseWindow { window_id } => {
                WindowControllerPluginMessage::RequestCloseWindow { window_id: *window_id }
            },
            WindowControllerPluginMessage::CloseWindow { window_id } => {
                WindowControllerPluginMessage::CloseWindow { window_id: *window_id }
            },
            WindowControllerPluginMessage::MinimizeWindow { window_id } => {
                WindowControllerPluginMessage::MinimizeWindow { window_id: *window_id }
            },
            WindowControllerPluginMessage::MaximizeWindow { window_id } => {
                WindowControllerPluginMessage::MaximizeWindow { window_id: *window_id }
            },
            WindowControllerPluginMessage::DragWindowStart { window_id, position } => {
                WindowControllerPluginMessage::DragWindowStart { window_id: *window_id, position: *position }
            },
            WindowControllerPluginMessage::DragWindowMove { window_id, position } => {
                WindowControllerPluginMessage::DragWindowMove { window_id: *window_id, position: *position }
            },
            WindowControllerPluginMessage::DragWindowEnd { window_id, final_position } => {
                WindowControllerPluginMessage::DragWindowEnd {
                    window_id: *window_id,
                    final_position: *final_position,
                }
            },
            WindowControllerPluginMessage::WindowAdded { window_id } => {
                WindowControllerPluginMessage::WindowAdded { window_id: *window_id }
            },
            WindowControllerPluginMessage::WindowClosed { window_id } => {
                WindowControllerPluginMessage::WindowClosed { window_id: *window_id }
            },
            WindowControllerPluginMessage::UpdateWindowContent { window_id, new_content } => {
                WindowControllerPluginMessage::UpdateWindowContent {
                    window_id: *window_id,
                    new_content: new_content.clone(),
                }
            },
            WindowControllerPluginMessage::RequestWindowList => WindowControllerPluginMessage::RequestWindowList,
        }
    }
}

/// A payload addressed to a category of plugin, of one of the kinds the host knows.
#[derive(Debug)]
pub enum PluginPayload {
    Window(WindowPluginMessage),
    WindowController(WindowControllerPluginMessage),
}

impl PluginPayload {
    pub open spec fn spec_plugin_type(&self) -> PluginType {
        match self {
            PluginPayload::Window(_) => PluginType::Window,
            PluginPayload::WindowController(_) => PluginType::WindowController,
        }
    }

    pub fn plugin_type(&self) -> (r: PluginType)
        ensures
            r == self.spec_plugin_type(),
    {
        match self {
            PluginPayload::Window(_) => PluginType::Window,
            PluginPayload::WindowController(_) => PluginType::WindowController,
        }
    }
}

impl Clone for PluginPayload {
    fn clone(&self) -> (r: Self)
        ensures
            r == *self,
    {
        match self {
            PluginPayload::Window(m) => PluginPayload::Window(*m),
            PluginPayload::WindowController(m) => PluginPayload::WindowController(m.clone()),
        }
    }
}

impl WindowControllerPluginMessage {
    /// The request as a queueable payload, at its default priority.
    pub fn as_plugin_message(&self) -> (r: Option<PrioritizedMessage>)
        ensures
            r == Some(
                PrioritizedMessage {
                    content: PluginPayload::WindowController(*self),
                    priority: window_controller_priority(*self),
                },
            ),
    {
        let priority = PluginMessage::priority(self);
        Some(PrioritizedMessage { content: PluginPayload::WindowController(self.clone()), priority })
    }
}

/// Data that needs immediate handling. The host can recover a payload it
/// knows; a payload of any other kind is carried only by its type tag.
#[derive(Debug)]
pub enum CriticalDataPayload {
    Plugin(PluginPayload),
    Unrecognized { type_tag: String },
}

impl Clone for CriticalDataPayload {
    fn clone(&self) -> (r: Self)
        ensures
            r == *self,
    {
        match self {
            CriticalDataPayload::Plugin(p) => CriticalDataPayload::Plugin(p.clone()),
            CriticalDataPayload::Unrecognized { type_tag } => {
                CriticalDataPayload::Unrecognized { type_tag: type_tag.clone() }
            },
        }
    }
}

/// A payload together with the priority it is queued and dispatched at.
#[derive(Debug)]
pub struct PrioritizedMessage {
    pub content: PluginPayload,
    pub priority: Priority,
}

impl PluginMessage for PrioritizedMessage {
    open spec fn spec_priority(&self) -> Priority {
        self.priority
    }

    open spec fn spec_plugin_type(&self) -> PluginType {
        self.content.spec_plugin_type()
    }

    fn priority(&self) -> (r: Priority) {
        self.priority
    }

    fn plugin_type(&self) -> (r: PluginType) {
        self.content.plugin_type()
    }
}

impl Clone for PrioritizedMessage {
    fn clone(&self) -> (r: Self)
        ensures
            r == *self,
    {
        PrioritizedMessage { content: self.content.clone(), priority: self.priority }
    }
}

impl PrioritizedMessage {
    /// Whether `self` is dispatched strictly before `other` would be.
    pub fn outranks(&self, other: &PrioritizedMessage) -> (r: bool)
        ensures
            r == (self.priority.spec_rank() > other.priority.spec_rank()),
    {
        self.priority.rank() > other.priority.rank()
    }
}

/// A message in transit between plugins and controllers. Every message
/// carries exactly one priority.
#[derive(Debug)]
pub enum Message {
    /// Fan-out to every subscriber.
    Broadcast { content: String, priority: Priority },
    /// Addressed to one controller instance by its id.
    ControllerMessage { target_controller_id: String, content: ControllerMessage, priority: Priority },
    /// Addressed by the payload's plugin type.
    PluginSpecific { content: PluginPayload, priority: Priority },
    /// Data that bypasses the filter chain.
    CriticalData { payload: CriticalDataPayload, priority: Priority },
    /// A message that the filter chain rejected, kept for auditing.
    FilteredOut { original_message: Box<Message>, priority: Priority },
    /// A controller's identity or configuration changed.
    ControllerUpdated { controller_id: String, priority: Priority },
}

impl Message {
    pub open spec fn spec_priority(&self) -> Priority {
        match self {
            Message::Broadcast { priority, .. } => *priority,
            Message::ControllerMessage { priority, .. } => *priority,
            Message::PluginSpecific { priority, .. } => *priority,
            Message::CriticalData { priority, .. } => *priority,
            Message::FilteredOut { priority, .. } => *priority,
            Message::ControllerUpdated { priority, .. } => *priority,
        }
    }

    pub fn priority(&self) -> (r: Priority)
        ensures
            r == self.spec_priority(),
    {
        match self {
            Message::Broadcast { priority, .. } => *priority,
            Message::ControllerMessage { priority, .. } => *priority,
            Message::PluginSpecific { priority, .. } => *priority,
            Message::CriticalData { priority, .. } => *priority,
            Message::FilteredOut { priority, .. } => *priority,
            Message::ControllerUpdated { priority, .. } => *priority,
        }
    }

    /// The id of the controller the message is addressed to, for
    /// controller-addressed messages only.
    pub fn get_target_controller_id(&self) -> (r: Option<&str>)
        ensures
            match self {
                Message::ControllerMessage { target_controller_id, .. } => r matches Some(id)
                    && id@ == target_controller_id@,
                _ => r is None,
            },
    {
        match self {
            Message::ControllerMessage { target_controller_id, .. } => Some(target_controller_id.as_str()),
            _ => None,
        }
    }

    /// A structurally equal copy.
    pub fn duplicate(&self) -> (r: Message)
        ensures
            r == *self,
        decreases self,
    {
        match self {
            Message::Broadcast { content, priority } => {
                Message::Broadcast { content: content.clone(), priority: *priority }
            },
            Message::ControllerMessage { target_controller_id, content, priority } => {
                Message::ControllerMessage {
                    target_controller_id: target_controller_id.clone(),
                    content: *content,
                    priority: *priority,
                }
            },
            Message::PluginSpecific { content, priority } => {
                Message::PluginSpecific { content: content.clone(), priority: *priority }
            },
            Message::CriticalData { payload, priority } => {
                Message::CriticalData { payload: payload.clone(), priority: *priority }
            },
            Message::FilteredOut { original_message, priority } => {
                let inner = (**original_message).duplicate();
                Message::FilteredOut { original_message: Box::new(inner), priority: *priority }
            },
            Message::ControllerUpdated { controller_id, priority } => {
                Message::ControllerUpdated { controller_id: controller_id.clone(), priority: *priority }
            },
        }
    }

    /// Wraps a rejected message for the filtered-out sink, keeping its priority.
    pub fn into_filtered_out(self) -> (r: Message)
        ensures
            r == (Message::FilteredOut {
                original_message: Box::new(self),
                priority: self.spec_priority(),
            }),
    {
        let priority = self.priority();
        Message::FilteredOut { original_message: Box::new(self), priority }
    }
}

impl Clone for Message {
    fn clone(&self) -> (r: Self)
        ensures
            r == *self,
    {
        self.duplicate()
    }
}

/// Severity of a log line.
#[derive(Clone, Copy, Debug, PartialEq, Eq, Structural)]
pub enum LogLevel {
    Debug,
    Info,
    Warning,
    Error,
}

impl LogLevel {
    pub open spec fn spec_label(self) -> Seq<char> {
        match self {
            LogLevel::Debug => "DEBUG"@,
            LogLevel::Info => "INFO"@,
            LogLevel::Warning => "WARNING"@,
            LogLevel::Error => "ERROR"@,
        }
    }

    /// The level's name as written in log lines.
    pub fn label(&self) -> (r: &'static str)
        ensures
            r@ == self.spec_label(),
    {
        proof {
            reveal_strlit("DEBUG");
            reveal_strlit("INFO");
            reveal_strlit("WARNING");
            reveal_strlit("ERROR");
        }
        match self {
            LogLevel::Debug => "DEBUG",
            LogLevel::Info => "INFO",
            LogLevel::Warning => "WARNING",
            LogLevel::Error => "ERROR",
        }
    }
}

/// Messages about audio samples.
#[derive(Clone, Debug)]
pub enum SampleMessage {
    Start { id: u32, data: Vec<u8> },
    Stop { id: u32 },
    Update { id: u32, data: Vec<u8> },
}

/// Menu commands.
#[derive(Clone, Copy, Debug, PartialEq, Eq, Structural)]
pub enum MenuMessage {
    FileOpen,
    FileSave,
    FileNew,
    FileClose,
    EditCopy,
    EditPaste,
    EditCut,
    ViewZoomIn,
    ViewZoomOut,
    HelpAbout,
}

/// Configuration parameters handed to a plugin.
#[derive(Clone, Copy, Debug, PartialEq, Eq, Structural)]
pub struct ConfigData {}

/// Requests to enable, disable or configure a named plugin.
#[derive(Debug)]
pub enum PluginControlMessage {
    Enable(String),
    Disable(String),
    Configure(String, ConfigData),
}

impl PluginControlMessage {
    /// The name of the plugin the request is about.
    pub fn plugin_name(&self) -> (r: &str)
        ensures
            r@ == match self {
                PluginControlMessage::Enable(n) => n@,
                PluginControlMessage::Disable(n) => n@,
                PluginControlMessage::Configure(n, _) => n@,
            },
    {
        match self {
            PluginControlMessage::Enable(n) => n.as_str(),
            PluginControlMessage::Disable(n) => n.as_str(),
            PluginControlMessage::Configure(n, _) => n.as_str(),
        }
    }
}

/// Kinds of controller.
#[derive(Clone, Copy, Debug, PartialEq, Eq, Structural)]
pub enum ControllerPlugin {
    WindowController,
    MenuController,
    FileController,
}

/// Interaction events that the view reports to its controller.
#[derive(Clone, Copy, Debug, PartialEq, Eq, Structural)]
pub enum ControllerPluginMessage {
    NewFile,
    OpenFile,
    SaveFile,
    Exit,
    WindowClicked(usize),
    WindowDragged(usize, ScreenPos),
    WindowDragEnded(usize),
    WindowAdded,
    WindowClosed(usize),
    WindowMinimized(usize),
}

} // verus!
