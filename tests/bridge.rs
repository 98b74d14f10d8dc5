use std::cell::Cell;
use std::rc::Rc;

use rs_web_component::bridge::{BaseComponent, Lifecycle};
use rs_web_component::component::Component;
use wasm_bindgen::JsCast;
use wasm_bindgen::JsValue;
use web_sys::HtmlElement;

fn element() -> HtmlElement {
    JsValue::NULL.unchecked_into::<HtmlElement>()
}

struct Recorder {
    log: Vec<String>,
    watched: Vec<String>,
}

impl Recorder {
    fn new() -> Recorder {
        Recorder { log: Vec::new(), watched: vec!["test".to_string(), "label".to_string()] }
    }
}

fn show(v: &Option<String>) -> String {
    match v {
        None => "absent".to_string(),
        Some(s) => format!("'{}'", s),
    }
}

impl Component for Recorder {
    fn init(&mut self, _this: HtmlElement) {
        self.log.push("init".to_string());
    }

    fn observed_attributes(&self) -> Vec<String> {
        self.watched.clone()
    }

    fn attribute_changed_callback(
        &mut self,
        name: String,
        old_value: Option<String>,
        new_value: Option<String>,
    ) {
        self.log.push(format!("attr {} {} {}", name, show(&old_value), show(&new_value)));
    }

    fn connected_callback(&mut self) {
        self.log.push("connected".to_string());
    }

    fn disconnected_callback(&mut self) {
        self.log.push("disconnected".to_string());
    }

    fn adopted_callback(&mut self) {
        self.log.push("adopted".to_string());
    }
}

fn counted() -> (Rc<Cell<u32>>, BaseComponent<Recorder, impl Fn() -> Recorder>) {
    let count = Rc::new(Cell::new(0u32));
    let seen = count.clone();
    let bridge = BaseComponent::new(move || {
        seen.set(seen.get() + 1);
        Recorder::new()
    });
    (count, bridge)
}

fn log_of(bridge: &BaseComponent<Recorder, impl Fn() -> Recorder>) -> Vec<String> {
    bridge.component().unwrap().log.clone()
}

#[test]
fn new_bridge_builds_nothing() {
    let (count, bridge) = counted();
    assert_eq!(count.get(), 0);
    assert!(!bridge.is_constructed());
    assert!(bridge.component().is_none());
    assert_eq!(bridge.lifecycle(), Lifecycle::Unconstructed);
}

#[test]
fn factory_runs_once_over_many_callbacks() {
    let (count, mut bridge) = counted();
    bridge.observed_attributes();
    bridge.init(element());
    bridge.attribute_changed_callback("test".to_string(), None, Some("1".to_string()));
    bridge.connected_callback();
    bridge.disconnected_callback();
    bridge.connected_callback();
    bridge.adopted_callback();
    bridge.observed_attributes();
    assert_eq!(count.get(), 1);
    assert_eq!(
        log_of(&bridge),
        vec!["init", "attr test absent '1'", "connected", "disconnected", "connected", "adopted"]
    );
}

#[test]
fn first_callback_of_any_kind_builds_the_widget() {
    let (count, mut bridge) = counted();
    bridge.connected_callback();
    assert_eq!(count.get(), 1);
    assert!(bridge.is_constructed());
    assert_eq!(bridge.lifecycle(), Lifecycle::Active);
    assert_eq!(log_of(&bridge), vec!["connected"]);

    let (count, mut bridge) = counted();
    bridge.attribute_changed_callback("label".to_string(), None, None);
    assert_eq!(count.get(), 1);
    assert_eq!(bridge.lifecycle(), Lifecycle::Active);

    let (count, mut bridge) = counted();
    bridge.disconnected_callback();
    assert_eq!(count.get(), 1);
    assert_eq!(bridge.lifecycle(), Lifecycle::Disconnected);
}

#[test]
fn observed_attributes_before_init_and_repeated() {
    let (count, mut bridge) = counted();
    let first = bridge.observed_attributes();
    let second = bridge.observed_attributes();
    assert_eq!(first, vec!["test".to_string(), "label".to_string()]);
    assert_eq!(first, second);
    assert_eq!(count.get(), 1);
    assert!(log_of(&bridge).is_empty());
    bridge.init(element());
    assert_eq!(bridge.observed_attributes(), first);
    assert_eq!(count.get(), 1);
}

#[test]
fn reconnect_reruns_connected_only() {
    let (count, mut bridge) = counted();
    bridge.init(element());
    bridge.connected_callback();
    assert_eq!(bridge.lifecycle(), Lifecycle::Active);
    bridge.disconnected_callback();
    assert_eq!(bridge.lifecycle(), Lifecycle::Disconnected);
    bridge.connected_callback();
    assert_eq!(bridge.lifecycle(), Lifecycle::Active);
    assert_eq!(count.get(), 1);
    assert_eq!(log_of(&bridge), vec!["init", "connected", "disconnected", "connected"]);
    let inits = log_of(&bridge).iter().filter(|e| e.as_str() == "init").count();
    assert_eq!(inits, 1);
}

#[test]
fn absent_and_empty_attribute_values_stay_apart() {
    let (_count, mut bridge) = counted();
    bridge.attribute_changed_callback("test".to_string(), None, Some(String::new()));
    bridge.attribute_changed_callback("test".to_string(), Some(String::new()), None);
    bridge.attribute_changed_callback("test".to_string(), Some(String::new()), Some(String::new()));
    bridge.attribute_changed_callback("test".to_string(), None, None);
    assert_eq!(
        log_of(&bridge),
        vec![
            "attr test absent ''",
            "attr test '' absent",
            "attr test '' ''",
            "attr test absent absent",
        ]
    );
}

#[test]
fn adopted_keeps_lifecycle() {
    let (_count, mut bridge) = counted();
    bridge.connected_callback();
    bridge.disconnected_callback();
    bridge.adopted_callback();
    assert_eq!(bridge.lifecycle(), Lifecycle::Disconnected);
    bridge.connected_callback();
    bridge.adopted_callback();
    assert_eq!(bridge.lifecycle(), Lifecycle::Active);
}

struct Badge {
    shadow: String,
    renders: u32,
}

impl Component for Badge {
    fn init(&mut self, _this: HtmlElement) {}

    fn observed_attributes(&self) -> Vec<String> {
        vec!["label".to_string()]
    }

    fn attribute_changed_callback(
        &mut self,
        name: String,
        _old_value: Option<String>,
        _new_value: Option<String>,
    ) {
        if self.observed_attributes().contains(&name) {
            self.renders += 1;
        }
    }

    fn connected_callback(&mut self) {
        self.shadow = "<span>hi</span>".to_string();
        self.renders += 1;
    }

    fn disconnected_callback(&mut self) {}

    fn adopted_callback(&mut self) {}
}

fn badge() -> Badge {
    Badge { shadow: String::new(), renders: 0 }
}

#[test]
fn badge_renders_on_connect_and_ignores_unobserved_attribute() {
    let mut bridge = BaseComponent::new(badge);
    let watched = bridge.observed_attributes();
    bridge.init(element());
    bridge.connected_callback();
    assert_eq!(bridge.component().unwrap().shadow, "<span>hi</span>");
    // The host delivers changes of watched attributes only.
    let name = "data-unused".to_string();
    if watched.contains(&name) {
        bridge.attribute_changed_callback(name.clone(), None, Some(String::new()));
    }
    assert_eq!(bridge.component().unwrap().shadow, "<span>hi</span>");
    // Even if it were handed on, the widget leaves its content alone.
    bridge.attribute_changed_callback(name, None, Some(String::new()));
    assert_eq!(bridge.component().unwrap().shadow, "<span>hi</span>");
    assert_eq!(bridge.component().unwrap().renders, 1);
}

struct ClickCounter {
    listening: bool,
    clicks: Cell<u32>,
}

impl ClickCounter {
    fn click(&self) {
        if self.listening {
            self.clicks.set(self.clicks.get() + 1);
        }
    }
}

impl Component for ClickCounter {
    fn init(&mut self, _this: HtmlElement) {}

    fn observed_attributes(&self) -> Vec<String> {
        Vec::new()
    }

    fn attribute_changed_callback(
        &mut self,
        _name: String,
        _old_value: Option<String>,
        _new_value: Option<String>,
    ) {
    }

    fn connected_callback(&mut self) {
        self.listening = true;
    }

    fn disconnected_callback(&mut self) {
        self.listening = false;
    }

    fn adopted_callback(&mut self) {}
}

fn click_counter() -> ClickCounter {
    ClickCounter { listening: false, clicks: Cell::new(0) }
}

#[test]
fn clicks_after_disconnect_have_no_effect() {
    let mut bridge = BaseComponent::new(click_counter);
    bridge.init(element());
    bridge.connected_callback();
    bridge.component().unwrap().click();
    bridge.component().unwrap().click();
    assert_eq!(bridge.component().unwrap().clicks.get(), 2);
    bridge.disconnected_callback();
    bridge.component().unwrap().click();
    bridge.component().unwrap().click();
    assert_eq!(bridge.component().unwrap().clicks.get(), 2);
    bridge.connected_callback();
    bridge.component().unwrap().click();
    assert_eq!(bridge.component().unwrap().clicks.get(), 3);
}
