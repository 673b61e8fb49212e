use plugin_core::{Message, Plugin, PluginRegistry, PluginType, PrioritizedMessage};
use std::cell::RefCell;
use std::rc::Rc;

type Log = Rc<RefCell<Vec<String>>>;

struct Probe {
    name: String,
    kind: PluginType,
    log: Log,
}

impl Plugin for Probe {
    fn name(&self) -> &str {
        &self.name
    }
    fn plugin_type(&self) -> PluginType {
        self.kind
    }
    fn controller(&self) -> Option<&str> {
        None
    }
    fn handle_message(&mut self, _message: PrioritizedMessage) -> Vec<Message> {
        self.log.borrow_mut().push(format!("handle {}", self.name));
        Vec::new()
    }
    fn on_load(&mut self) {
        self.log.borrow_mut().push(format!("load {}", self.name));
    }
    fn on_unload(&mut self) {
        self.log.borrow_mut().push(format!("unload {}", self.name));
    }
}

impl Drop for Probe {
    fn drop(&mut self) {
        self.log.borrow_mut().push(format!("drop instance {}", self.name));
    }
}

struct Module {
    name: String,
    log: Log,
}

impl Drop for Module {
    fn drop(&mut self) {
        self.log.borrow_mut().push(format!("drop library {}", self.name));
    }
}

fn probe(name: &str, kind: PluginType, log: &Log) -> (Probe, Module) {
    (
        Probe { name: name.to_string(), kind, log: log.clone() },
        Module { name: name.to_string(), log: log.clone() },
    )
}

fn count(log: &Log, entry: &str) -> usize {
    log.borrow().iter().filter(|e| e.as_str() == entry).count()
}

#[test]
fn install_calls_on_load_once_and_registers_name() {
    let log: Log = Rc::new(RefCell::new(Vec::new()));
    let mut reg: PluginRegistry<Probe, Module> = PluginRegistry::new();
    let (p, m) = probe("Window", PluginType::Window, &log);
    let (name, kind) = reg.install(p, m, "libwindow.so".to_string());
    assert_eq!(name, "Window");
    assert_eq!(kind, PluginType::Window);
    assert_eq!(count(&log, "load Window"), 1);
    assert!(reg.is_loaded("Window"));
    assert_eq!(reg.len(), 1);
    assert_eq!(reg.path_of("Window"), Some("libwindow.so".to_string()));
    assert_eq!(reg.name_at(0), "Window");
}

#[test]
fn unload_calls_on_unload_once_then_drops_instance_before_library() {
    let log: Log = Rc::new(RefCell::new(Vec::new()));
    let mut reg: PluginRegistry<Probe, Module> = PluginRegistry::new();
    let (p, m) = probe("Window", PluginType::Window, &log);
    reg.install(p, m, "a".to_string());
    assert!(reg.unload("Window"));
    assert!(!reg.is_loaded("Window"));
    assert_eq!(count(&log, "unload Window"), 1);
    let entries = log.borrow().clone();
    assert_eq!(
        entries,
        vec![
            "load Window".to_string(),
            "unload Window".to_string(),
            "drop instance Window".to_string(),
            "drop library Window".to_string(),
        ]
    );
}

#[test]
fn unloading_an_unknown_name_changes_nothing() {
    let log: Log = Rc::new(RefCell::new(Vec::new()));
    let mut reg: PluginRegistry<Probe, Module> = PluginRegistry::new();
    let (p, m) = probe("A", PluginType::UI, &log);
    reg.install(p, m, "a".to_string());
    assert!(!reg.unload("B"));
    assert_eq!(reg.len(), 1);
    assert_eq!(count(&log, "unload A"), 0);
}

#[test]
fn loading_a_name_twice_reloads_it() {
    let log: Log = Rc::new(RefCell::new(Vec::new()));
    let mut reg: PluginRegistry<Probe, Module> = PluginRegistry::new();
    let (p, m) = probe("A", PluginType::UI, &log);
    reg.install(p, m, "first".to_string());
    let (p, m) = probe("A", PluginType::Audio, &log);
    reg.install(p, m, "second".to_string());
    assert_eq!(reg.len(), 1);
    assert_eq!(count(&log, "load A"), 2);
    assert_eq!(count(&log, "unload A"), 1);
    assert_eq!(reg.path_of("A"), Some("second".to_string()));
    assert_eq!(reg.handler_for(PluginType::Audio), Some(0));
    assert_eq!(reg.handler_for(PluginType::UI), None);
}

#[test]
fn disabled_plugins_stay_loaded_but_serve_nothing() {
    let log: Log = Rc::new(RefCell::new(Vec::new()));
    let mut reg: PluginRegistry<Probe, Module> = PluginRegistry::new();
    let (p, m) = probe("W", PluginType::Window, &log);
    reg.install(p, m, "w".to_string());
    assert_eq!(reg.handler_for(PluginType::Window), Some(0));
    assert!(reg.set_enabled("W", false));
    assert!(reg.is_loaded("W"));
    assert_eq!(reg.handler_for(PluginType::Window), None);
    assert_eq!(count(&log, "unload W"), 0);
    assert!(reg.set_enabled("W", true));
    assert_eq!(reg.handler_for(PluginType::Window), Some(0));
    assert!(!reg.set_enabled("X", true));
}
