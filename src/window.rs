use vstd::prelude::*;
use crate::messages::{
    ControllerMessage, ControllerPluginMessage, Message, PluginPayload, PluginType, PrioritizedMessage, ScreenPos,
    WindowControllerMessage, WindowPluginMessage,
};
use crate::priority::Priority;
use crate::registry::Plugin;
use crate::controller::WindowControllerPlugin;
use crate::queue::MAX_QUEUE_CAPACITY;
use crate::version::{PluginVersion, VersionComparable, VersionEquatable, Versioned};

verus! {

/// One window shown by the window plugin.
#[derive(Debug)]
pub struct Frame {
    pub title: String,
    pub uuid: usize,
    pub is_minimized: bool,
    pub is_collapsed: bool,
}

/// The window being dragged, where the drag started and where it is now.
#[derive(Clone, Copy, Debug, PartialEq, Eq, Structural)]
pub struct DraggedWindow {
    pub index: usize,
    pub start_pos: ScreenPos,
    pub current_pos: ScreenPos,
}

/// The windows of the window plugin and their placement order.
#[derive(Debug)]
pub struct WindowState {
    pub windows: Vec<Frame>,
    /// Window indices in the order they are laid out.
    pub grid: Vec<usize>,
    /// How many windows have been added so far; numbers the next one.
    pub about_counter: usize,
    pub dragged_window: Option<DraggedWindow>,
}

/// `grid` after the window at `index` is closed: the entry for it goes and
/// every later index moves down by one.
pub open spec fn grid_after_close(grid: Seq<usize>, index: usize) -> Seq<usize>
    decreases grid.len(),
{
    if grid.len() == 0 {
        Seq::empty()
    } else {
        let rest = grid_after_close(grid.drop_last(), index);
        let x = grid.last();
        if x == index {
            rest
        } else if x > index {
            rest.push((x - 1) as usize)
        } else {
            rest.push(x)
        }
    }
}

/// The controller that window requests are answered by.
pub const WINDOW_CONTROLLER_ID: &'static str = "window_controller";

impl WindowState {
    pub fn new() -> (r: Self)
        ensures
            r.windows@ == Seq::<Frame>::empty(),
            r.grid@ == Seq::<usize>::empty(),
            r.about_counter == 0,
            r.dragged_window is None,
    {
        WindowState { windows: Vec::new(), grid: Vec::new(), about_counter: 0, dragged_window: None }
    }

    /// Adds an "About" window, numbered by the running counter, at the end of
    /// the layout.
    pub fn add_window(&mut self)
        requires
            old(self).about_counter < usize::MAX,
        ensures
            final(self).about_counter == old(self).about_counter + 1,
            final(self).windows@.len() == old(self).windows@.len() + 1,
            final(self).windows@.drop_last() == old(self).windows@,
            final(self).windows@.last().title@ == "About"@,
            final(self).windows@.last().uuid == final(self).about_counter,
            !final(self).windows@.last().is_minimized,
            !final(self).windows@.last().is_collapsed,
            final(self).grid@ == old(self).grid@.push(old(self).windows@.len() as usize),
            final(self).dragged_window == old(self).dragged_window,
    {
        self.about_counter = self.about_counter + 1;
        let index = self.windows.len();
        proof {
            reveal_strlit("About");
        }
        self.windows.push(
            Frame { title: "About".to_owned(), uuid: self.about_counter, is_minimized: false, is_collapsed: false },
        );
        self.grid.push(index);
        proof {
            assert(self.windows@.drop_last() =~= old(self).windows@);
        }
    }

    /// Closes the window at `index`, if there is one: it leaves the window
    /// list and the layout, and later indices in the layout move down by one.
    pub fn close_window(&mut self, index: usize)
        ensures
            index < old(self).windows@.len() ==> final(self).windows@ == old(self).windows@.remove(
                index as int,
            ) && final(self).grid@ == grid_after_close(old(self).grid@, index),
            index >= old(self).windows@.len() ==> final(self).windows@ == old(self).windows@
                && final(self).grid@ == old(self).grid@,
            final(self).about_counter == old(self).about_counter,
            final(self).dragged_window == old(self).dragged_window,
    {
        if index < self.windows.len() {
            self.windows.remove(index);
            let mut grid: Vec<usize> = Vec::new();
            let mut i: usize = 0;
            while i < self.grid.len()
                invariant
                    i <= self.grid@.len(),
                    grid@ == grid_after_close(self.grid@.subrange(0, i as int), index),
                decreases self.grid@.len() - i,
            {
                let x = self.grid[i];
                proof {
                    let pre = self.grid@.subrange(0, i as int);
                    let post = self.grid@.subrange(0, i as int + 1);
                    assert(post.drop_last() =~= pre);
                    assert(post.last() == x);
                }
                if x > index {
                    grid.push(x - 1);
                } else if x < index {
                    grid.push(x);
                }
                i = i + 1;
            }
            proof {
                assert(self.grid@.subrange(0, i as int) =~= self.grid@);
            }
            self.grid = grid;
        }
    }

    pub fn minimize_window(&mut self, index: usize)
        ensures
            final(self).windows@.len() == old(self).windows@.len(),
            forall|k: int|
                0 <= k < old(self).windows@.len() ==> #[trigger] final(self).windows@[k] == (if k == index {
                    Frame { is_minimized: true, ..old(self).windows@[k] }
                } else {
                    old(self).windows@[k]
                }),
            final(self).grid@ == old(self).grid@,
            final(self).about_counter == old(self).about_counter,
            final(self).dragged_window == old(self).dragged_window,
    {
        if index < self.windows.len() {
            self.windows[index].is_minimized = true;
        }
    }

    pub fn collapse_window(&mut self, index: usize)
        ensures
            final(self).windows@.len() == old(self).windows@.len(),
            forall|k: int|
                0 <= k < old(self).windows@.len() ==> #[trigger] final(self).windows@[k] == (if k == index {
                    Frame { is_collapsed: !old(self).windows@[k].is_collapsed, ..old(self).windows@[k] }
                } else {
                    old(self).windows@[k]
                }),
            final(self).grid@ == old(self).grid@,
            final(self).about_counter == old(self).about_counter,
            final(self).dragged_window == old(self).dragged_window,
    {
        if index < self.windows.len() {
            let collapsed = self.windows[index].is_collapsed;
            self.windows[index].is_collapsed = !collapsed;
        }
    }
}

/// The plugin that owns the windows: it adds, closes, minimises, collapses
/// and drags them on request.
pub struct WindowPlugin {
    pub state: WindowState,
    pub version: PluginVersion,
    received: Ghost<Seq<PrioritizedMessage>>,
    loads: Ghost<nat>,
    unloads: Ghost<nat>,
}

/// The window state untouched but for what the message is about.
pub open spec fn layout_kept(o: WindowState, n: WindowState) -> bool {
    &&& n.windows@ == o.windows@
    &&& n.grid@ == o.grid@
    &&& n.about_counter == o.about_counter
}

/// `n` is the window state `o` after handling `m`.
pub open spec fn applied(o: WindowState, n: WindowState, m: WindowPluginMessage) -> bool {
    match m {
        WindowPluginMessage::AddWindow => {
            &&& n.dragged_window == o.dragged_window
            &&& if o.about_counter < usize::MAX {
                &&& n.about_counter == o.about_counter + 1
                &&& n.windows@.len() == o.windows@.len() + 1
                &&& n.windows@.drop_last() == o.windows@
                &&& n.windows@.last().title@ == "About"@
                &&& n.windows@.last().uuid == n.about_counter
                &&& !n.windows@.last().is_minimized
                &&& !n.windows@.last().is_collapsed
                &&& n.grid@ == o.grid@.push(o.windows@.len() as usize)
            } else {
                layout_kept(o, n)
            }
        },
        WindowPluginMessage::ConfirmedCloseWindow(i) => {
            &&& n.dragged_window == o.dragged_window
            &&& n.about_counter == o.about_counter
            &&& if i < o.windows@.len() {
                n.windows@ == o.windows@.remove(i as int) && n.grid@ == grid_after_close(o.grid@, i)
            } else {
                n.windows@ == o.windows@ && n.grid@ == o.grid@
            }
        },
        WindowPluginMessage::MinimizeWindow(i) => {
            &&& n.dragged_window == o.dragged_window
            &&& n.about_counter == o.about_counter
            &&& n.grid@ == o.grid@
            &&& n.windows@.len() == o.windows@.len()
            &&& forall|k: int|
                0 <= k < o.windows@.len() ==> #[trigger] n.windows@[k] == (if k == i {
                    Frame { is_minimized: true, ..o.windows@[k] }
                } else {
                    o.windows@[k]
                })
        },
        WindowPluginMessage::CollapseWindow(i) => {
            &&& n.dragged_window == o.dragged_window
            &&& n.about_counter == o.about_counter
            &&& n.grid@ == o.grid@
            &&& n.windows@.len() == o.windows@.len()
            &&& forall|k: int|
                0 <= k < o.windows@.len() ==> #[trigger] n.windows@[k] == (if k == i {
                    Frame { is_collapsed: !o.windows@[k].is_collapsed, ..o.windows@[k] }
                } else {
                    o.windows@[k]
                })
        },
        WindowPluginMessage::DragWindowStart(i, pos) => {
            &&& layout_kept(o, n)
            &&& n.dragged_window == Some(DraggedWindow { index: i, start_pos: pos, current_pos: pos })
        },
        WindowPluginMessage::DragWindowMove(pos) => {
            &&& layout_kept(o, n)
            &&& n.dragged_window == match o.dragged_window {
                Some(d) => Some(DraggedWindow { current_pos: pos, ..d }),
                None => None,
            }
        },
        WindowPluginMessage::DragWindowEnd => {
            &&& layout_kept(o, n)
            &&& n.dragged_window is None
        },
    }
}

/// Whether `replies` is the window plugin's answer to `m` at `priority`: one
/// request to the window controller to register an added window, and
/// nothing for any other request.
pub open spec fn window_replies_ok(m: WindowPluginMessage, priority: Priority, replies: Seq<Message>) -> bool {
    if m is AddWindow {
        &&& replies.len() == 1
        &&& (replies[0] matches Message::ControllerMessage { target_controller_id, content, priority: p }
            && target_controller_id@ == "window_controller"@ && content == ControllerMessage::WindowController(
            WindowControllerMessage::RequestAddWindow { priority },
        ) && p == priority)
    } else {
        replies.len() == 0
    }
}

impl WindowPlugin {
    /// The windows this plugin manages.
    pub closed spec fn spec_state(&self) -> WindowState {
        self.state
    }

    pub fn new() -> (r: Self)
        ensures
            r.spec_state().windows@ == Seq::<Frame>::empty(),
            r.spec_state().grid@ == Seq::<usize>::empty(),
            r.spec_state().about_counter == 0,
            r.version_spec() == (PluginVersion { major: 0, minor: 1, patch: 0 }),
            r.received() == Seq::<PrioritizedMessage>::empty(),
            r.load_count() == 0,
            r.unload_count() == 0,
    {
        WindowPlugin {
            state: WindowState::new(),
            version: PluginVersion::new(0, 1, 0),
            received: Ghost(Seq::empty()),
            loads: Ghost(0),
            unloads: Ghost(0),
        }
    }

    /// Applies one window request to the windows and returns the replies.
    pub fn apply(&mut self, m: WindowPluginMessage, priority: Priority) -> (r: Vec<Message>)
        ensures
            applied(old(self).spec_state(), final(self).spec_state(), m),
            window_replies_ok(m, priority, r@),
            final(self).version_spec() == old(self).version_spec(),
            final(self).received() == old(self).received(),
            final(self).load_count() == old(self).load_count(),
            final(self).unload_count() == old(self).unload_count(),
    {
        proof {
            reveal_strlit("window_controller");
        }
        match m {
            WindowPluginMessage::AddWindow => {
                if self.state.about_counter < usize::MAX {
                    self.state.add_window();
                }
                let mut replies: Vec<Message> = Vec::new();
                replies.push(
                    Message::ControllerMessage {
                        target_controller_id: WINDOW_CONTROLLER_ID.to_owned(),
                        content: ControllerMessage::WindowController(
                            WindowControllerMessage::RequestAddWindow { priority },
                        ),
                        priority,
                    },
                );
                replies
            },
            WindowPluginMessage::ConfirmedCloseWindow(i) => {
                self.state.close_window(i);
                Vec::new()
            },
            WindowPluginMessage::MinimizeWindow(i) => {
                self.state.minimize_window(i);
                Vec::new()
            },
            WindowPluginMessage::CollapseWindow(i) => {
                self.state.collapse_window(i);
                Vec::new()
            },
            WindowPluginMessage::DragWindowStart(i, pos) => {
                self.state.dragged_window = Some(DraggedWindow { index: i, start_pos: pos, current_pos: pos });
                Vec::new()
            },
            WindowPluginMessage::DragWindowMove(pos) => {
                match self.state.dragged_window {
                    Some(d) => {
                        self.state.dragged_window = Some(DraggedWindow { current_pos: pos, ..d });
                    },
                    None => {},
                }
                Vec::new()
            },
            WindowPluginMessage::DragWindowEnd => {
                self.state.dragged_window = None;
                Vec::new()
            },
        }
    }

    pub fn is_dragging(&self) -> (r: bool)
        ensures
            r == self.spec_state().dragged_window is Some,
    {
        self.state.dragged_window.is_some()
    }
}

impl Versioned for WindowPlugin {
    closed spec fn version_spec(&self) -> PluginVersion {
        self.version
    }

    fn get_version(&self) -> (r: &PluginVersion) {
        &self.version
    }
}

impl VersionComparable for WindowPlugin {}

impl VersionEquatable for WindowPlugin {}

impl Plugin for WindowPlugin {
    closed spec fn received(&self) -> Seq<PrioritizedMessage> {
        self.received@
    }

    closed spec fn load_count(&self) -> nat {
        self.loads@
    }

    closed spec fn unload_count(&self) -> nat {
        self.unloads@
    }

    open spec fn replies_ok(&self, message: PrioritizedMessage, replies: Seq<Message>) -> bool {
        match message.content {
            PluginPayload::Window(w) => window_replies_ok(w, message.priority, replies),
            PluginPayload::WindowController(_) => replies.len() == 0,
        }
    }

    fn name(&self) -> &str {
        "WindowPlugin"
    }

    fn plugin_type(&self) -> PluginType {
        PluginType::Window
    }

    fn controller(&self) -> Option<&str> {
        Some(WINDOW_CONTROLLER_ID)
    }

    fn handle_message(&mut self, message: PrioritizedMessage) -> (r: Vec<Message>) {
        let ghost m = message;
        let replies = match message.content {
            PluginPayload::Window(w) => self.apply(w, message.priority),
            PluginPayload::WindowController(_) => Vec::new(),
        };
        proof {
            self.received@ = self.received@.push(m);
        }
        replies
    }

    fn on_load(&mut self) {
        proof {
            self.loads@ = self.loads@ + 1;
        }
    }

    fn on_unload(&mut self) {
        proof {
            self.unloads@ = self.unloads@ + 1;
        }
    }
}

/// What the renderer reports of one window after drawing it.
#[derive(Clone, Copy, Debug, PartialEq, Eq, Structural)]
pub struct WindowResponse {
    pub is_closed: bool,
    pub is_minimized: bool,
    /// How far the window was dragged, when it was.
    pub drag_delta: Option<ScreenPos>,
}

/// The events a window's response stands for, in this order: closed,
/// minimised, dragged.
pub open spec fn response_events(response: WindowResponse, window_index: usize) -> Seq<ControllerPluginMessage> {
    let closed = if response.is_closed {
        seq![ControllerPluginMessage::WindowClosed(window_index)]
    } else {
        Seq::empty()
    };
    let minimized = if response.is_minimized {
        seq![ControllerPluginMessage::WindowMinimized(window_index)]
    } else {
        Seq::empty()
    };
    let dragged = match response.drag_delta {
        Some(d) => seq![ControllerPluginMessage::WindowDragged(window_index, d)],
        None => Seq::empty(),
    };
    closed + minimized + dragged
}

/// Turns the renderer's report on the window at `window_index` into the
/// events sent to the controller.
pub fn handle_window_interaction(response: &WindowResponse, window_index: usize) -> (r: Vec<ControllerPluginMessage>)
    ensures
        r@ == response_events(*response, window_index),
{
    let mut out: Vec<ControllerPluginMessage> = Vec::new();
    if response.is_closed {
        out.push(ControllerPluginMessage::WindowClosed(window_index));
    }
    if response.is_minimized {
        out.push(ControllerPluginMessage::WindowMinimized(window_index));
    }
    match response.drag_delta {
        Some(d) => out.push(ControllerPluginMessage::WindowDragged(window_index, d)),
        None => {},
    }
    proof {
        assert(out@ =~= response_events(*response, window_index));
    }
    out
}

/// A user interaction with a window, as the view reports it.
#[derive(Clone, Copy, Debug, PartialEq, Eq, Structural)]
pub enum WindowInteraction {
    Close,
    Minimize,
    Drag(ScreenPos),
}

/// The request a window controller sends to the window plugin for an
/// interaction with window `window_id`.
pub fn handle_ui_view_message(window_id: usize, interaction: WindowInteraction) -> (r: WindowPluginMessage)
    ensures
        r == match interaction {
            WindowInteraction::Close => WindowPluginMessage::ConfirmedCloseWindow(window_id),
            WindowInteraction::Minimize => WindowPluginMessage::MinimizeWindow(window_id),
            WindowInteraction::Drag(pos) => WindowPluginMessage::DragWindowMove(pos),
        },
{
    match interaction {
        WindowInteraction::Close => WindowPluginMessage::ConfirmedCloseWindow(window_id),
        WindowInteraction::Minimize => WindowPluginMessage::MinimizeWindow(window_id),
        WindowInteraction::Drag(pos) => WindowPluginMessage::DragWindowMove(pos),
    }
}

/// The window plugin bundled with the controller that answers its requests,
/// loaded as one plugin.
pub struct WindowManagementPlugin {
    pub window_plugin: WindowPlugin,
    pub window_controller: WindowControllerPlugin,
}

impl WindowManagementPlugin {
    /// A bundle whose controller, named `controller_id`, queues at most
    /// `capacity` payloads.
    pub fn new(controller_id: String, capacity: usize) -> (r: Self)
        requires
            0 < capacity <= MAX_QUEUE_CAPACITY,
        ensures
            r.window_controller.wf(),
            r.window_controller.spec_id() == controller_id@,
            r.window_plugin.spec_state().windows@.len() == 0,
    {
        WindowManagementPlugin {
            window_plugin: WindowPlugin::new(),
            window_controller: WindowControllerPlugin::new(controller_id, capacity),
        }
    }
}

impl Plugin for WindowManagementPlugin {
    open spec fn received(&self) -> Seq<PrioritizedMessage> {
        self.window_plugin.received()
    }

    open spec fn load_count(&self) -> nat {
        self.window_plugin.load_count()
    }

    open spec fn unload_count(&self) -> nat {
        self.window_plugin.unload_count()
    }

    open spec fn replies_ok(&self, message: PrioritizedMessage, replies: Seq<Message>) -> bool {
        self.window_plugin.replies_ok(message, replies)
    }

    fn name(&self) -> &str {
        "Window Management"
    }

    fn plugin_type(&self) -> PluginType {
        PluginType::Window
    }

    fn controller(&self) -> Option<&str> {
        Some(self.window_controller.controller_id())
    }

    fn handle_message(&mut self, message: PrioritizedMessage) -> (r: Vec<Message>) {
        self.window_plugin.handle_message(message)
    }

    fn on_load(&mut self) {
        self.window_plugin.on_load();
    }

    fn on_unload(&mut self) {
        self.window_plugin.on_unload();
    }
}

} // verus!
