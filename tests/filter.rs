use plugin_core::{
    ControllerMessage, CriticalDataPayload, DynamicMessageFilter, Filter, FilterChain, Message,
    MessageFilter, MyConcreteFilter, PluginPayload, PluginType, Priority, PriorityFilter,
    WindowControllerMessage, WindowControllerPluginMessage, WindowPluginMessage,
};

fn window_msg(priority: Priority) -> Message {
    Message::PluginSpecific { content: PluginPayload::Window(WindowPluginMessage::AddWindow), priority }
}

fn controller_msg(target: &str) -> Message {
    Message::ControllerMessage {
        target_controller_id: target.to_string(),
        content: ControllerMessage::WindowController(WindowControllerMessage::RequestAddWindow {
            priority: Priority::Normal,
        }),
        priority: Priority::Normal,
    }
}

#[test]
fn priority_filter_is_scoped_to_its_type() {
    let f = PriorityFilter { min_priority: Priority::High, plugin_type: PluginType::Window };
    assert!(f.filter(&window_msg(Priority::High)));
    assert!(f.filter(&window_msg(Priority::Critical)));
    assert!(!f.filter(&window_msg(Priority::Normal)));
    let other = Message::PluginSpecific {
        content: PluginPayload::WindowController(WindowControllerPluginMessage::RequestWindowList),
        priority: Priority::Critical,
    };
    assert!(!f.filter(&other));
    assert!(!f.filter(&Message::Broadcast { content: "x".to_string(), priority: Priority::Critical }));
}

#[test]
fn dynamic_filter_follows_its_controller_id() {
    let mut f = DynamicMessageFilter::new("a".to_string());
    assert!(f.filter(&controller_msg("a")));
    assert!(!f.filter(&controller_msg("b")));
    f.set_controller_id("b".to_string());
    assert_eq!(f.controller_id(), "b");
    assert!(f.filter(&controller_msg("b")));
    assert!(!f.filter(&controller_msg("a")));
    assert!(!f.filter(&window_msg(Priority::Critical)));
}

#[test]
fn concrete_filter_keeps_urgent_and_critical() {
    let f = MyConcreteFilter;
    assert!(f.filter(&Message::Broadcast { content: String::new(), priority: Priority::High }));
    assert!(!f.filter(&Message::Broadcast { content: String::new(), priority: Priority::Normal }));
    assert!(f.filter(&window_msg(Priority::Critical)));
    assert!(!f.filter(&window_msg(Priority::Medium)));
    let critical = Message::CriticalData {
        payload: CriticalDataPayload::Unrecognized { type_tag: "blob".to_string() },
        priority: Priority::Low,
    };
    assert!(f.filter(&critical));
    assert!(!f.filter(&controller_msg("a")));
}

#[test]
fn chain_accepts_only_when_every_filter_accepts() {
    let mut chain = FilterChain::new();
    assert!(chain.accepts(&window_msg(Priority::Low)));
    chain.add(Filter::Priority(PriorityFilter { min_priority: Priority::Normal, plugin_type: PluginType::Window }));
    chain.add(Filter::Concrete(MyConcreteFilter));
    assert_eq!(chain.len(), 2);
    assert!(chain.accepts(&window_msg(Priority::High)));
    assert!(!chain.accepts(&window_msg(Priority::Normal)));
    assert!(!chain.accepts(&window_msg(Priority::Low)));
    let copy = chain.clone();
    assert_eq!(copy.len(), 2);
    assert!(copy.accepts(&window_msg(Priority::Critical)));
}

#[test]
fn reject_all_rejects_everything() {
    let mut chain = FilterChain::new();
    chain.add(Filter::RejectAll);
    for p in [Priority::Low, Priority::Normal, Priority::Critical] {
        assert!(!chain.accepts(&window_msg(p)));
        assert!(!chain.accepts(&Message::Broadcast { content: "hi".to_string(), priority: p }));
    }
}

#[test]
fn filtered_out_keeps_the_wrapped_message_and_its_priority() {
    let m = window_msg(Priority::Low);
    match m.clone().into_filtered_out() {
        Message::FilteredOut { original_message, priority } => {
            assert_eq!(priority, Priority::Low);
            assert!(matches!(
                *original_message,
                Message::PluginSpecific { content: PluginPayload::Window(WindowPluginMessage::AddWindow), priority: Priority::Low }
            ));
        }
        _ => panic!("not wrapped"),
    }
    assert_eq!(controller_msg("c").get_target_controller_id(), Some("c"));
    assert_eq!(m.get_target_controller_id(), None);
}
