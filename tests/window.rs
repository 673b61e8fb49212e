use plugin_core::{
    handle_ui_view_message, handle_window_interaction, ControllerMessage, ControllerPluginMessage,
    LogLevel, Message, Plugin, PluginControlMessage, PluginManifest, PluginPayload, PluginType,
    PluginVersion, PrioritizedMessage, Priority, ScreenPos, WindowControllerMessage,
    WindowControllerPluginMessage, WindowInteraction, WindowPlugin, WindowPluginMessage,
    WindowResponse, PluginMessage,
};

fn window(m: WindowPluginMessage) -> PrioritizedMessage {
    PrioritizedMessage { content: PluginPayload::Window(m), priority: Priority::Normal }
}

#[test]
fn add_window_numbers_windows_and_asks_the_controller() {
    let mut p = WindowPlugin::new();
    let replies = p.handle_message(window(WindowPluginMessage::AddWindow));
    p.handle_message(window(WindowPluginMessage::AddWindow));
    assert_eq!(p.state.windows.len(), 2);
    assert_eq!(p.state.windows[0].title, "About");
    assert_eq!(p.state.windows[1].uuid, 2);
    assert_eq!(p.state.grid, vec![0, 1]);
    assert_eq!(replies.len(), 1);
    match &replies[0] {
        Message::ControllerMessage { target_controller_id, content, priority } => {
            assert_eq!(target_controller_id, "window_controller");
            assert_eq!(*content, ControllerMessage::WindowController(WindowControllerMessage::RequestAddWindow { priority: Priority::Normal }));
            assert_eq!(*priority, Priority::Normal);
        }
        other => panic!("unexpected {:?}", other),
    }
    assert_eq!(p.name(), "WindowPlugin");
    assert_eq!(p.plugin_type(), PluginType::Window);
    assert_eq!(p.controller(), Some("window_controller"));
}

#[test]
fn closing_a_window_shifts_later_grid_indices() {
    let mut p = WindowPlugin::new();
    for _ in 0..4 {
        p.handle_message(window(WindowPluginMessage::AddWindow));
    }
    p.state.grid = vec![3, 1, 0, 2];
    p.handle_message(window(WindowPluginMessage::ConfirmedCloseWindow(1)));
    assert_eq!(p.state.windows.len(), 3);
    assert_eq!(p.state.grid, vec![2, 0, 1]);
    p.handle_message(window(WindowPluginMessage::ConfirmedCloseWindow(7)));
    assert_eq!(p.state.windows.len(), 3);
    assert_eq!(p.state.grid, vec![2, 0, 1]);
}

#[test]
fn minimise_collapse_and_drag() {
    let mut p = WindowPlugin::new();
    p.handle_message(window(WindowPluginMessage::AddWindow));
    p.handle_message(window(WindowPluginMessage::MinimizeWindow(0)));
    p.handle_message(window(WindowPluginMessage::CollapseWindow(0)));
    assert!(p.state.windows[0].is_minimized);
    assert!(p.state.windows[0].is_collapsed);
    let start = ScreenPos { x: 1, y: 2 };
    let to = ScreenPos { x: 5, y: -3 };
    p.handle_message(window(WindowPluginMessage::DragWindowStart(0, start)));
    assert!(p.is_dragging());
    p.handle_message(window(WindowPluginMessage::DragWindowMove(to)));
    let d = p.state.dragged_window.unwrap();
    assert_eq!((d.index, d.start_pos, d.current_pos), (0, start, to));
    p.handle_message(window(WindowPluginMessage::DragWindowEnd));
    assert!(!p.is_dragging());
}

#[test]
fn window_response_becomes_controller_events() {
    let r = WindowResponse { is_closed: true, is_minimized: false, drag_delta: Some(ScreenPos { x: 3, y: 4 }) };
    assert_eq!(
        handle_window_interaction(&r, 5),
        vec![ControllerPluginMessage::WindowClosed(5), ControllerPluginMessage::WindowDragged(5, ScreenPos { x: 3, y: 4 })]
    );
    let quiet = WindowResponse { is_closed: false, is_minimized: false, drag_delta: None };
    assert!(handle_window_interaction(&quiet, 0).is_empty());
    let min = WindowResponse { is_closed: false, is_minimized: true, drag_delta: None };
    assert_eq!(handle_window_interaction(&min, 1), vec![ControllerPluginMessage::WindowMinimized(1)]);
}

#[test]
fn view_interactions_become_window_requests() {
    assert_eq!(handle_ui_view_message(4, WindowInteraction::Close), WindowPluginMessage::ConfirmedCloseWindow(4));
    assert_eq!(handle_ui_view_message(4, WindowInteraction::Minimize), WindowPluginMessage::MinimizeWindow(4));
    let pos = ScreenPos { x: 9, y: 9 };
    assert_eq!(handle_ui_view_message(4, WindowInteraction::Drag(pos)), WindowPluginMessage::DragWindowMove(pos));
}

#[test]
fn controller_requests_carry_default_priorities() {
    assert_eq!(WindowControllerPluginMessage::CloseWindow { window_id: 1 }.priority(), Priority::High);
    assert_eq!(WindowControllerPluginMessage::RequestWindowList.priority(), Priority::Low);
    let add = WindowControllerPluginMessage::AddWindow { title: "t".to_string(), content: "c".to_string(), plugin_type: PluginType::UI };
    assert_eq!(add.priority(), Priority::Normal);
    assert_eq!(add.plugin_type(), PluginType::WindowController);
    let pm = add.as_plugin_message().unwrap();
    assert_eq!(pm.priority, Priority::Normal);
    assert_eq!(PluginMessage::plugin_type(&pm), PluginType::WindowController);
}

#[test]
fn manifest_lookups() {
    let m = PluginManifest {
        name: "Window".to_string(),
        version: PluginVersion::new(0, 1, 0),
        controller_id: "window_controller".to_string(),
        dependencies: vec!["Core".to_string()],
        config_options: vec![("theme".to_string(), "dark".to_string()), ("theme".to_string(), "light".to_string())],
    };
    assert_eq!(m.config_value("theme").map(|s| s.as_str()), Some("dark"));
    assert_eq!(m.config_value("size"), None);
    assert!(m.depends_on("Core"));
    assert!(!m.depends_on("Audio"));
}

#[test]
fn labels_and_control_targets() {
    assert_eq!(LogLevel::Warning.label(), "WARNING");
    assert_eq!(LogLevel::Debug.label(), "DEBUG");
    assert_eq!(PluginControlMessage::Disable("Audio".to_string()).plugin_name(), "Audio");
}

#[test]
fn window_management_bundle_delegates_to_the_window_plugin() {
    let mut p = plugin_core::WindowManagementPlugin::new("window_controller".to_string(), 4);
    assert_eq!(p.name(), "Window Management");
    assert_eq!(p.plugin_type(), PluginType::Window);
    p.on_load();
    let replies = p.handle_message(window(WindowPluginMessage::AddWindow));
    assert_eq!(replies.len(), 1);
    assert_eq!(p.window_plugin.state.windows.len(), 1);
    assert_eq!(p.window_controller.controller_id(), "window_controller");
    p.on_unload();
}
