use xkcd_1975::{
    Action, ClickAction, Conditional, Data, DelegateState, Graph, ItemKind, LoadError, Menu,
    MenuError, MenuId, MenuItem, MenuState, Reaction, Root, State, SubMenu,
};

fn id(s: &str) -> MenuId {
    MenuId::new(s.to_string())
}

fn tag_set(s: &str) -> Conditional {
    Conditional::TagSet { contents: id(s) }
}

fn action(set: &[(&str, &str)], unset: &[&str]) -> Action {
    let mut a = Action::new();
    for (k, v) in set {
        a.set_tag(id(k), v.to_string());
    }
    for k in unset {
        a.unset_tag(id(k));
    }
    a
}

fn item(label: &str, display: Conditional, active: Conditional, reaction: Reaction) -> MenuItem {
    MenuItem { icon: None, label: label.to_string(), display, active, reaction }
}

fn click(on_action: Action, act: Option<ClickAction>) -> Reaction {
    Reaction::ClickAction { on_action, act }
}

fn sub(base: &str, postfix: Option<&str>, on_hover: Action) -> Reaction {
    Reaction::SubMenu { on_hover, submenu: SubMenu::new(id(base), postfix.map(id)) }
}

fn node(base: &str, postfix: Option<&str>, on_hover: Action) -> MenuState {
    MenuState { submenu: SubMenu::new(id(base), postfix.map(id)), on_hover }
}

fn root_menu() -> Menu {
    Menu {
        id: id("root"),
        on_leave: Action::new(),
        entries: vec![
            item("Main", tag_set("b").negate(), Conditional::Always, sub("main.", Some("v"), Action::new())),
            item("Other", tag_set("b"), Conditional::Always, sub("other", None, Action::new())),
        ],
    }
}

trait Negate {
    fn negate(self) -> Conditional;
}

impl Negate for Conditional {
    fn negate(self) -> Conditional {
        Conditional::TLNot { contents: Box::new(self) }
    }
}

fn sample_data() -> Data {
    let mut graph = Graph::new();
    graph.insert(id("root"), root_menu());
    graph.insert(
        id("main."),
        Menu {
            id: id("main."),
            on_leave: action(&[], &["hover"]),
            entries: vec![
                item("Always", Conditional::Always, Conditional::Always, click(Action::new(), None)),
                item("Flag", tag_set("flag"), tag_set("flag"), click(action(&[("b", "1")], &[]), None)),
                item(
                    "Go",
                    Conditional::Always,
                    Conditional::Always,
                    click(
                        action(&[("flag", "")], &[]),
                        Some(ClickAction::Nav { url: "https://example.org".to_string() }),
                    ),
                ),
                item("Deeper", Conditional::Always, Conditional::Always, sub("deep", None, action(&[("v", "2")], &[]))),
            ],
        },
    );
    graph.insert(
        id("main.2"),
        Menu { id: id("main.2"), on_leave: Action::new(), entries: vec![] },
    );
    graph.insert(
        id("other"),
        Menu { id: id("other"), on_leave: Action::new(), entries: vec![] },
    );
    let mut state = State::new();
    state.insert(id("start"), "yes".to_string());
    Data { root: Root { state, menu: root_menu() }, graph }
}

#[test]
fn root_menu_is_same_as_in_graph() {
    let data = sample_data();

    assert!(data.is_consistent());
    assert!(*data.graph.get(&data.root.menu.id).unwrap() == data.root.menu);
}

#[test]
fn not_negates() {
    let mut state = State::new();
    for e in [Conditional::Always, tag_set("x"), Conditional::TagUnset { contents: id("x") }] {
        let v = e.evaluate(&state);
        assert_eq!(e.negate().evaluate(&state), !v);
    }
    state.insert(id("x"), "1".to_string());
    let e = tag_set("x");
    assert!(e.evaluate(&state));
    assert!(!e.negate().evaluate(&state));
}

#[test]
fn empty_and_or() {
    let state = State::new();
    assert!(Conditional::TLAnd { contents: vec![] }.evaluate(&state));
    assert!(!Conditional::TLOr { contents: vec![] }.evaluate(&state));
    let mut state = State::new();
    state.insert(id("a"), "1".to_string());
    assert!(Conditional::TLAnd { contents: vec![] }.evaluate(&state));
    assert!(!Conditional::TLOr { contents: vec![] }.evaluate(&state));
}

#[test]
fn and_or_mixed() {
    let mut state = State::new();
    state.insert(id("a"), "1".to_string());
    let both = Conditional::TLAnd { contents: vec![tag_set("a"), tag_set("b")] };
    let either = Conditional::TLOr { contents: vec![tag_set("b"), tag_set("a")] };
    let unset = Conditional::TagUnset { contents: id("b") };
    assert!(!both.evaluate(&state));
    assert!(either.evaluate(&state));
    assert!(unset.evaluate(&state));
    let nested = Conditional::TLOr {
        contents: vec![both, Conditional::TLAnd { contents: vec![either, unset, Conditional::Always] }],
    };
    assert!(nested.evaluate(&state));
}

#[test]
fn deep_nesting_is_evaluated() {
    let state = State::new();
    let mut e = Conditional::Always;
    for _ in 0..2001 {
        e = e.negate();
    }
    assert!(!e.evaluate(&state));
    let mut e = tag_set("x");
    for _ in 0..2000 {
        e = Conditional::TLAnd { contents: vec![Conditional::Always, e] };
    }
    assert!(!e.evaluate(&state));
}

#[test]
fn set_then_evaluate() {
    let mut state = State::new();
    let e = tag_set("x");
    assert!(!e.evaluate(&state));
    state.update(&action(&[("x", "1")], &[]));
    assert!(e.evaluate(&state));
    assert_eq!(state.get(&id("x")).map(|s| s.as_str()), Some("1"));
}

#[test]
fn unset_wins_over_set() {
    let mut state = State::new();
    state.update(&action(&[("x", "1")], &["x"]));
    assert!(state.tags().is_empty());
    assert!(!state.contains_key(&id("x")));
}

#[test]
fn applying_twice_changes_nothing_more() {
    let a = action(&[("x", "1"), ("y", "2")], &["y", "z"]);
    let mut state = State::new();
    state.insert(id("z"), "0".to_string());
    state.insert(id("w"), "0".to_string());
    state.update(&a);
    let once: Vec<(String, String)> =
        state.tags().iter().map(|t| (t.key.as_str().to_string(), t.value.clone())).collect();
    state.update(&a);
    let twice: Vec<(String, String)> =
        state.tags().iter().map(|t| (t.key.as_str().to_string(), t.value.clone())).collect();
    assert_eq!(once.len(), 2);
    assert_eq!(state.get(&id("x")).map(|s| s.as_str()), Some("1"));
    assert_eq!(state.get(&id("w")).map(|s| s.as_str()), Some("0"));
    assert!(!state.contains_key(&id("y")));
    assert!(!state.contains_key(&id("z")));
    assert_eq!(once.len(), twice.len());
    for pair in &once {
        assert!(twice.contains(pair));
    }
}

#[test]
fn set_overwrites_value() {
    let mut state = State::new();
    state.insert(id("x"), "1".to_string());
    state.update(&action(&[("x", "2")], &[]));
    assert_eq!(state.get(&id("x")).map(|s| s.as_str()), Some("2"));
    assert_eq!(state.tags().len(), 1);
    state.remove(&id("x"));
    assert!(state.get(&id("x")).is_none());
}

#[test]
fn action_set_tag_replaces_value() {
    let a = action(&[("x", "1"), ("x", "2")], &[]);
    assert_eq!(a.set_tags().len(), 1);
    assert_eq!(a.set_tags()[0].value, "2");
    assert!(a == action(&[("x", "2")], &[]));
    assert!(a != action(&[("x", "1")], &[]));
    assert!(Action::default() == Action::new());
}

#[test]
fn submenu_postfix_falls_back() {
    let r = SubMenu::new(id("menu.A"), Some(id("variant")));
    let empty = State::new();
    assert_eq!(r.id(&empty).as_str(), "menu.A");
    let mut state = State::new();
    state.insert(id("variant"), "2".to_string());
    assert_eq!(r.id(&state).as_str(), "menu.A2");
    let plain = SubMenu::new(id("menu.A"), None);
    assert_eq!(plain.id(&state).as_str(), "menu.A");
}

#[test]
fn open_reports_visibility() {
    let mut graph = Graph::new();
    graph.insert(
        id("m"),
        Menu {
            id: id("m"),
            on_leave: Action::new(),
            entries: vec![
                item("one", Conditional::Always, Conditional::Always, click(Action::new(), None)),
                item("two", tag_set("flag"), Conditional::Always, click(Action::new(), None)),
            ],
        },
    );
    let root = Menu {
        id: id("root"),
        on_leave: Action::new(),
        entries: vec![item("m", Conditional::Always, Conditional::Always, sub("m", None, Action::new()))],
    };
    graph.insert(id("root"), Menu { id: id("root"), on_leave: Action::new(), entries: vec![item("m", Conditional::Always, Conditional::Always, sub("m", None, Action::new()))] });
    let data = Data { root: Root { state: State::new(), menu: root }, graph };
    let mut core = DelegateState::new(data).ok().unwrap();
    let items = core.open(&node("m", None, Action::new())).ok().unwrap();
    let visible: Vec<bool> = items.iter().map(|i| i.visible).collect();
    assert_eq!(visible, vec![true, false]);
    assert_eq!(items[0].label, "one");
    assert!(items[1].enabled);
    assert_eq!(items[1].kind, ItemKind::Activate);
}

#[test]
fn open_applies_hover_before_evaluating() {
    let mut core = DelegateState::new(sample_data()).ok().unwrap();
    let hover = action(&[("flag", "x")], &[]);
    let items = core.open(&node("main.", Some("v"), hover)).ok().unwrap();
    assert_eq!(items.len(), 4);
    assert!(items[1].visible);
    assert!(items[1].enabled);
    assert_eq!(items[3].kind, ItemKind::SubMenu);
    assert!(core.state().contains_key(&id("flag")));
}

#[test]
fn close_applies_leave_action() {
    let mut core = DelegateState::new(sample_data()).ok().unwrap();
    let n = node("main.", Some("v"), action(&[("hover", "1")], &[]));
    core.open(&n).ok().unwrap();
    assert!(core.state().contains_key(&id("hover")));
    assert!(core.close(&n).is_ok());
    assert!(!core.state().contains_key(&id("hover")));
}

#[test]
fn close_resolves_again() {
    let mut core = DelegateState::new(sample_data()).ok().unwrap();
    let n = node("main.", Some("v"), action(&[("v", "2"), ("hover", "1")], &[]));
    core.open(&n).ok().unwrap();
    // now "v" is "2": the node stands for "main.2", whose leave action is empty
    assert!(core.close(&n).is_ok());
    assert!(core.state().contains_key(&id("hover")));
}

#[test]
fn materialize_builds_children() {
    let core = DelegateState::new(sample_data()).ok().unwrap();
    let children = core.materialize(&node("main.", Some("v"), Action::new())).ok().unwrap();
    assert_eq!(children.len(), 4);
    assert_eq!(children[0].label, "Always");
    assert!(children[0].submenu.is_none());
    let child = children[3].submenu.as_ref().unwrap();
    assert_eq!(child.submenu.sub_menu.as_str(), "deep");
    assert!(child.on_hover == action(&[("v", "2")], &[]));
}

#[test]
fn activate_applies_action_then_returns_effect() {
    let mut core = DelegateState::new(sample_data()).ok().unwrap();
    let n = node("main.", Some("v"), Action::new());
    let effect = core.activate(&n, 2).ok().unwrap();
    assert!(effect == Some(ClickAction::Nav { url: "https://example.org".to_string() }));
    assert!(core.state().contains_key(&id("flag")));
    assert!(core.activate(&n, 0).ok().unwrap().is_none());
}

#[test]
fn activate_errors() {
    let mut core = DelegateState::new(sample_data()).ok().unwrap();
    let n = node("main.", Some("v"), Action::new());
    assert_eq!(core.activate(&n, 4).err(), Some(MenuError::NoSuchItem));
    assert_eq!(core.activate(&n, 3).err(), Some(MenuError::NotAnAction));
    let missing = node("nowhere", None, Action::new());
    assert_eq!(core.activate(&missing, 0).err(), Some(MenuError::UnknownMenu));
    assert_eq!(core.open(&missing).err(), Some(MenuError::UnknownMenu));
    assert_eq!(core.close(&missing).err(), Some(MenuError::UnknownMenu));
    assert!(core.materialize(&missing).is_err());
}

#[test]
fn select_active_root_follows_tags() {
    let mut core = DelegateState::new(sample_data()).ok().unwrap();
    assert_eq!(core.main_menus().len(), 2);
    assert_eq!(core.select_active_root(), Some(0));
    let n = node("main.", Some("v"), Action::new());
    core.activate(&n, 1).ok().unwrap();
    assert_eq!(core.select_active_root(), Some(1));
}

#[test]
fn initial_tags_come_from_root() {
    let core = DelegateState::new(sample_data()).ok().unwrap();
    assert_eq!(core.state().get(&id("start")).map(|s| s.as_str()), Some("yes"));
    assert!(core.graph().get(&id("other")).is_some());
}

#[test]
fn load_errors() {
    let mut data = sample_data();
    data.graph = Graph::new();
    assert_eq!(DelegateState::new(data).err(), Some(LoadError::RootMenuMissing));

    let mut data = sample_data();
    data.root.menu.entries.pop();
    assert!(!data.is_consistent());
    assert_eq!(DelegateState::new(data).err(), Some(LoadError::RootMenuDiffers));

    let mut data = sample_data();
    let menu = Menu {
        id: id("root"),
        on_leave: Action::new(),
        entries: vec![item("x", Conditional::Always, Conditional::Always, click(Action::new(), None))],
    };
    let copy = Menu {
        id: id("root"),
        on_leave: Action::new(),
        entries: vec![item("x", Conditional::Always, Conditional::Always, click(Action::new(), None))],
    };
    data.graph.insert(id("root"), copy);
    data.root.menu = menu;
    assert!(data.is_consistent());
    assert_eq!(DelegateState::new(data).err(), Some(LoadError::RootEntryNotSubMenu));
}

#[test]
fn graph_insert_replaces() {
    let mut graph = Graph::new();
    graph.insert(id("a"), Menu { id: id("a"), on_leave: Action::new(), entries: vec![] });
    graph.insert(id("a"), Menu { id: id("b"), on_leave: Action::new(), entries: vec![] });
    assert_eq!(graph.menus().len(), 1);
    assert_eq!(graph.get(&id("a")).unwrap().id.as_str(), "b");
    assert!(graph.get(&id("b")).is_none());
}

#[test]
fn equality_is_structural() {
    let a = Conditional::TLAnd { contents: vec![tag_set("x"), Conditional::TLOr { contents: vec![] }] };
    let b = Conditional::TLAnd { contents: vec![tag_set("x"), Conditional::TLOr { contents: vec![] }] };
    let c = Conditional::TLAnd { contents: vec![tag_set("y"), Conditional::TLOr { contents: vec![] }] };
    assert!(a == b);
    assert!(a != c);
    assert!(tag_set("x") != Conditional::TagUnset { contents: id("x") });
    let d1 = ClickAction::Download { url: "u".to_string(), filename: "f".to_string() };
    let d2 = ClickAction::Download { url: "u".to_string(), filename: "g".to_string() };
    assert!(d1 != d2);
    assert!(d1 == d1.clone());
    assert!(SubMenu::new(id("a"), Some(id("p"))) != SubMenu::new(id("a"), None));
}
