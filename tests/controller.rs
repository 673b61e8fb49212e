use plugin_core::{
    ControllerMessage, CriticalDataPayload, Dispatch, Filter, Intake, Message, Plugin,
    PluginPayload, PluginRegistry, PluginType, PrioritizedMessage, Priority, PriorityFilter,
    WindowControllerMessage, WindowControllerPlugin, WindowPluginMessage,
};
use std::cell::RefCell;
use std::rc::Rc;

type Calls = Rc<RefCell<Vec<(String, Priority)>>>;

struct Recorder {
    name: String,
    kind: PluginType,
    calls: Calls,
}

impl Plugin for Recorder {
    fn name(&self) -> &str {
        &self.name
    }
    fn plugin_type(&self) -> PluginType {
        self.kind
    }
    fn controller(&self) -> Option<&str> {
        None
    }
    fn handle_message(&mut self, message: PrioritizedMessage) -> Vec<Message> {
        self.calls.borrow_mut().push((self.name.clone(), message.priority));
        Vec::new()
    }
    fn on_load(&mut self) {}
    fn on_unload(&mut self) {}
}

fn setup(calls: &Calls) -> (WindowControllerPlugin, PluginRegistry<Recorder, ()>) {
    let mut reg: PluginRegistry<Recorder, ()> = PluginRegistry::new();
    reg.install(Recorder { name: "Window".to_string(), kind: PluginType::Window, calls: calls.clone() }, (), "w".to_string());
    reg.install(
        Recorder { name: "WindowController".to_string(), kind: PluginType::WindowController, calls: calls.clone() },
        (),
        "wc".to_string(),
    );
    let mut c = WindowControllerPlugin::new("window_controller".to_string(), 16);
    c.activate_handler(PluginType::Window);
    c.activate_handler(PluginType::WindowController);
    (c, reg)
}

fn add_window(priority: Priority) -> Message {
    Message::PluginSpecific { content: PluginPayload::Window(WindowPluginMessage::AddWindow), priority }
}

#[test]
fn add_window_reaches_only_the_window_handler() {
    let calls: Calls = Rc::new(RefCell::new(Vec::new()));
    let (mut c, mut reg) = setup(&calls);
    let cycle = c.run_cycle(&mut reg, vec![add_window(Priority::Normal)]);
    assert!(matches!(cycle.intakes[0], Intake::Queued));
    assert_eq!(cycle.dispatches.len(), 1);
    assert!(matches!(cycle.dispatches[0], Dispatch::Delivered { plugin_type: PluginType::Window, index: 0, .. }));
    assert_eq!(*calls.borrow(), vec![("Window".to_string(), Priority::Normal)]);
}

#[test]
fn low_priority_window_message_is_filtered_out() {
    let calls: Calls = Rc::new(RefCell::new(Vec::new()));
    let (mut c, mut reg) = setup(&calls);
    c.add_filter(Filter::Priority(PriorityFilter { min_priority: Priority::High, plugin_type: PluginType::Window }));
    let cycle = c.run_cycle(&mut reg, vec![add_window(Priority::Low)]);
    match &cycle.intakes[0] {
        Intake::FilteredOut(Message::FilteredOut { original_message, priority }) => {
            assert_eq!(*priority, Priority::Low);
            assert!(matches!(
                **original_message,
                Message::PluginSpecific { content: PluginPayload::Window(WindowPluginMessage::AddWindow), priority: Priority::Low }
            ));
        }
        other => panic!("unexpected intake {:?}", other),
    }
    assert!(cycle.dispatches.is_empty());
    assert!(calls.borrow().is_empty());
}

#[test]
fn reject_all_chain_queues_nothing() {
    let calls: Calls = Rc::new(RefCell::new(Vec::new()));
    let (mut c, mut reg) = setup(&calls);
    c.add_filter(Filter::RejectAll);
    let inbound = vec![
        add_window(Priority::Critical),
        Message::Broadcast { content: "hello".to_string(), priority: Priority::High },
        add_window(Priority::Low),
    ];
    let cycle = c.run_cycle(&mut reg, inbound);
    assert_eq!(cycle.intakes.len(), 3);
    for intake in &cycle.intakes {
        assert!(matches!(intake, Intake::FilteredOut(Message::FilteredOut { .. })));
    }
    assert!(cycle.dispatches.is_empty());
    assert_eq!(c.queued(), 0);
}

#[test]
fn unloaded_plugin_gets_no_handler_for_queued_messages() {
    let calls: Calls = Rc::new(RefCell::new(Vec::new()));
    let mut reg: PluginRegistry<Recorder, ()> = PluginRegistry::new();
    reg.install(
        Recorder { name: "WindowPlugin".to_string(), kind: PluginType::Window, calls: calls.clone() },
        (),
        "w".to_string(),
    );
    let mut c = WindowControllerPlugin::new("window_controller".to_string(), 8);
    c.activate_handler(PluginType::Window);
    for _ in 0..3 {
        assert!(matches!(c.handle_message(add_window(Priority::Normal)), Intake::Queued));
    }
    assert!(reg.unload("WindowPlugin"));
    let outcomes = c.process_messages(&mut reg);
    assert_eq!(outcomes.len(), 3);
    for d in &outcomes {
        assert!(matches!(d, Dispatch::NoHandler(_)));
    }
    assert!(!reg.is_loaded("WindowPlugin"));
    assert!(calls.borrow().is_empty());
}

#[test]
fn inactive_type_is_not_dispatched() {
    let calls: Calls = Rc::new(RefCell::new(Vec::new()));
    let (mut c, mut reg) = setup(&calls);
    c.deactivate_handler(PluginType::Window);
    let cycle = c.run_cycle(&mut reg, vec![add_window(Priority::High)]);
    assert!(matches!(cycle.dispatches[0], Dispatch::Inactive(_)));
    assert!(calls.borrow().is_empty());
}

#[test]
fn capacity_two_drops_one_of_three_critical() {
    let calls: Calls = Rc::new(RefCell::new(Vec::new()));
    let mut reg: PluginRegistry<Recorder, ()> = PluginRegistry::new();
    reg.install(Recorder { name: "W".to_string(), kind: PluginType::Window, calls: calls.clone() }, (), "w".to_string());
    let mut c = WindowControllerPlugin::new("c".to_string(), 2);
    c.activate_handler(PluginType::Window);
    let inbound = vec![add_window(Priority::Critical), add_window(Priority::Critical), add_window(Priority::Critical)];
    let cycle = c.run_cycle(&mut reg, inbound);
    let full = cycle.intakes.iter().filter(|i| matches!(i, Intake::QueueFull(_))).count();
    assert_eq!(full, 1);
    assert_eq!(cycle.dispatches.len(), 2);
    assert_eq!(calls.borrow().len(), 2);
}

#[test]
fn dispatch_runs_highest_priority_first() {
    let calls: Calls = Rc::new(RefCell::new(Vec::new()));
    let (mut c, mut reg) = setup(&calls);
    let inbound = vec![add_window(Priority::Low), add_window(Priority::Critical), add_window(Priority::Normal)];
    let cycle = c.run_cycle(&mut reg, inbound);
    let seen: Vec<Priority> = calls.borrow().iter().map(|(_, p)| *p).collect();
    assert_eq!(seen, vec![Priority::Critical, Priority::Normal, Priority::Low]);
    assert_eq!(cycle.dispatches.len(), 3);
}

#[test]
fn controller_requests_are_answered_or_forwarded() {
    let mut c = WindowControllerPlugin::new("window_controller".to_string(), 4);
    let close = Message::ControllerMessage {
        target_controller_id: "window_controller".to_string(),
        content: ControllerMessage::WindowController(WindowControllerMessage::RequestCloseWindow {
            window_index: 2,
            priority: Priority::High,
        }),
        priority: Priority::High,
    };
    match c.handle_message(close) {
        Intake::Reply(Message::PluginSpecific { content, priority }) => {
            assert!(matches!(content, PluginPayload::Window(WindowPluginMessage::ConfirmedCloseWindow(2))));
            assert_eq!(priority, Priority::High);
        }
        other => panic!("unexpected {:?}", other),
    }
    let elsewhere = Message::ControllerMessage {
        target_controller_id: "menu_controller".to_string(),
        content: ControllerMessage::WindowController(WindowControllerMessage::RequestAddWindow { priority: Priority::Low }),
        priority: Priority::Low,
    };
    match c.handle_message(elsewhere) {
        Intake::Forward(Message::ControllerMessage { target_controller_id, .. }) => {
            assert_eq!(target_controller_id, "menu_controller");
        }
        other => panic!("unexpected {:?}", other),
    }
    assert_eq!(c.queued(), 0);
}

#[test]
fn critical_data_bypasses_filters() {
    let mut c = WindowControllerPlugin::new("c".to_string(), 4);
    c.add_filter(Filter::RejectAll);
    let known = Message::CriticalData {
        payload: CriticalDataPayload::Plugin(PluginPayload::Window(WindowPluginMessage::DragWindowEnd)),
        priority: Priority::Critical,
    };
    assert!(matches!(c.handle_message(known), Intake::Queued));
    let unknown = Message::CriticalData {
        payload: CriticalDataPayload::Unrecognized { type_tag: "audio::Frame".to_string() },
        priority: Priority::Critical,
    };
    match c.handle_message(unknown) {
        Intake::Unrecognized(tag) => assert_eq!(tag, "audio::Frame"),
        other => panic!("unexpected {:?}", other),
    }
    assert_eq!(c.queued(), 1);
    let b = Message::Broadcast { content: "x".to_string(), priority: Priority::Low };
    assert!(matches!(c.handle_message(b), Intake::FilteredOut(_)));
    let mut open = WindowControllerPlugin::new("c".to_string(), 4);
    let b = Message::Broadcast { content: "x".to_string(), priority: Priority::Low };
    assert!(matches!(open.handle_message(b), Intake::Consumed));
}

#[test]
fn update_drains_channels_and_reports() {
    let calls: Calls = Rc::new(RefCell::new(Vec::new()));
    let (mut c, mut reg) = setup(&calls);
    c.add_filter(Filter::Priority(PriorityFilter { min_priority: Priority::Normal, plugin_type: PluginType::Window }));
    let (in_tx, in_rx) = crossbeam_channel::unbounded();
    let (sink_tx, sink_rx) = crossbeam_channel::unbounded();
    let (out_tx, _out_rx) = crossbeam_channel::unbounded();
    in_tx.send(add_window(Priority::High)).unwrap();
    in_tx.send(add_window(Priority::Low)).unwrap();
    let report = c.update(&mut reg, &in_rx, &sink_tx, &out_tx);
    assert_eq!(report.received, 2);
    assert_eq!(report.filtered_out, 1);
    assert!(!report.inbox_closed);
    assert_eq!(report.dispatches.len(), 1);
    assert!(matches!(sink_rx.try_recv(), Ok(Message::FilteredOut { priority: Priority::Low, .. })));
    drop(in_tx);
    let report = c.update(&mut reg, &in_rx, &sink_tx, &out_tx);
    assert_eq!(report.received, 0);
    assert!(report.inbox_closed);
}

#[test]
fn outputs_are_sorted_by_destination() {
    let wrapped = add_window(Priority::Low).into_filtered_out();
    let reply = add_window(Priority::High);
    let forward = Message::Broadcast { content: "fwd".to_string(), priority: Priority::Normal };
    let intakes = vec![
        Intake::Queued,
        Intake::FilteredOut(wrapped),
        Intake::Reply(reply),
        Intake::Unrecognized("x".to_string()),
        Intake::Forward(forward),
        Intake::Consumed,
    ];
    let out = plugin_core::sort_outputs(intakes);
    assert_eq!(out.to_sink.len(), 1);
    assert!(matches!(out.to_sink[0], Message::FilteredOut { priority: Priority::Low, .. }));
    assert_eq!(out.to_outbox.len(), 2);
    assert!(matches!(out.to_outbox[0], Message::PluginSpecific { priority: Priority::High, .. }));
    assert!(matches!(out.to_outbox[1], Message::Broadcast { .. }));
    assert_eq!(out.dropped, 1);
}
