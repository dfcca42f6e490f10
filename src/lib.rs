//! A menu graph whose items are shown, enabled and linked according to a small
//! store of tags, which the actions attached to the menus change.
pub mod condition;
pub mod controller;
pub mod graph;
pub mod laws;
pub mod menu;
pub mod tags;

pub use condition::Conditional;
pub use controller::{ChildItem, DelegateState, ItemKind, ItemView, LoadError, MenuError, MenuState};
pub use graph::{Data, Graph, Root};
pub use menu::{ClickAction, Menu, MenuItem, Reaction, SubMenu};
pub use tags::{Action, MenuId, State, Tag};
