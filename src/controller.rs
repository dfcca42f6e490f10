//! The menu controller: owns the tag store and the graph, and answers the host's
//! open, close, materialize and activate events.
use crate::condition::Conditional;
use crate::graph::{Data, Graph};
use crate::menu::{ClickAction, Menu, MenuItem, Reaction, SubMenu};
use crate::tags::{apply_action, Action, State, TagMap};
use vstd::prelude::*;

verus! {

/// A menu node as the host holds it: the reference through which it is reached,
/// and the action applied when it opens.
pub struct MenuState {
    pub submenu: SubMenu,
    pub on_hover: Action,
}

impl Clone for MenuState {
    fn clone(&self) -> (r: MenuState)
        ensures
            r.submenu == self.submenu,
            r.on_hover.set_view() == self.on_hover.set_view(),
            r.on_hover.unset_view() == self.on_hover.unset_view(),
    {
        MenuState { submenu: self.submenu.clone(), on_hover: self.on_hover.clone() }
    }
}

/// How an item reacts, as the host needs to know to draw it.
#[derive(Clone, Copy, Debug, PartialEq, Eq, Structural)]
pub enum ItemKind {
    SubMenu,
    Activate,
}

/// The kind of item that `reaction` makes.
pub open spec fn kind_of(reaction: Reaction) -> ItemKind {
    match reaction {
        Reaction::SubMenu { .. } => ItemKind::SubMenu,
        Reaction::ClickAction { .. } => ItemKind::Activate,
    }
}

/// How an item of an open menu is to be drawn.
pub struct ItemView {
    pub label: String,
    pub visible: bool,
    pub enabled: bool,
    pub kind: ItemKind,
}

/// An item of a menu that is being filled: its label, and for an item that opens a
/// submenu, the node of that submenu.
pub struct ChildItem {
    pub label: String,
    pub submenu: Option<MenuState>,
}

/// A defect in the data met while the menus are used.
#[derive(Clone, Copy, Debug, PartialEq, Eq, Structural)]
pub enum MenuError {
    /// The identifier that a node resolves to names no menu of the graph.
    UnknownMenu,
    /// The menu has no item at the index asked for.
    NoSuchItem,
    /// The item opens a submenu, and cannot be activated.
    NotAnAction,
}

/// A defect in the data found when it is loaded.
#[derive(Clone, Copy, Debug, PartialEq, Eq, Structural)]
pub enum LoadError {
    /// The graph has no menu under the root menu's identifier.
    RootMenuMissing,
    /// The graph holds another menu under the root menu's identifier.
    RootMenuDiffers,
    /// An item of the root menu does not open a submenu.
    RootEntryNotSubMenu,
}

/// Whether every item of `entries` opens a submenu.
pub open spec fn all_submenus(entries: Seq<MenuItem>) -> bool {
    forall|i: int| 0 <= i < entries.len() ==> #[trigger] entries[i].reaction is SubMenu
}

/// The state of the menu system: the tag store, the graph, and the top-level menus
/// with the conditions under which each is the one in use.
pub struct DelegateState {
    main_menus: Vec<(Conditional, MenuState)>,
    state: State,
    graph: Graph,
}

impl DelegateState {
    /// The tags that are set.
    pub closed spec fn tags(&self) -> TagMap {
        self.state@
    }

    /// The menus, by identifier.
    pub closed spec fn menus(&self) -> Map<Seq<char>, Menu> {
        self.graph@
    }

    /// The top-level menus, each with its condition.
    pub closed spec fn main_view(&self) -> Seq<(Conditional, MenuState)> {
        self.main_menus@
    }

    /// The menu that `node` stands for under the current tags.
    pub open spec fn menu_of(&self, node: &MenuState) -> Menu {
        self.menus()[node.submenu.resolve(self.tags())]
    }

    /// Whether `node` stands for a menu of the graph under the current tags.
    pub open spec fn knows(&self, node: &MenuState) -> bool {
        self.menus().contains_key(node.submenu.resolve(self.tags()))
    }

    /// Sets the menu system up from `data`: the tags start as the root's, and each
    /// item of the root menu becomes a top-level menu, shown while its display
    /// condition holds. The data must hold the root menu, unchanged, in the graph,
    /// and each root item must open a submenu.
    pub fn new(data: Data) -> (r: Result<DelegateState, LoadError>)
        ensures
            match r {
                Ok(d) => {
                    &&& data.consistent()
                    &&& all_submenus(data.root.menu.entries@)
                    &&& d.tags() == data.root.state@
                    &&& d.menus() == data.graph@
                    &&& d.main_view().len() == data.root.menu.entries@.len()
                    &&& forall|i: int|
                        0 <= i < d.main_view().len() ==> {
                            let entry = #[trigger] data.root.menu.entries@[i];
                            &&& d.main_view()[i].0 == entry.display
                            &&& entry.reaction matches Reaction::SubMenu { on_hover, submenu }
                                && d.main_view()[i].1 == (MenuState { submenu, on_hover })
                        }
                },
                Err(LoadError::RootMenuMissing) => !data.graph@.contains_key(data.root.menu.id@),
                Err(LoadError::RootMenuDiffers) => data.graph@.contains_key(data.root.menu.id@)
                    && !data.consistent(),
                Err(LoadError::RootEntryNotSubMenu) => data.consistent() && !all_submenus(
                    data.root.menu.entries@,
                ),
            },
    {
        if data.graph.get(&data.root.menu.id).is_none() {
            return Err(LoadError::RootMenuMissing);
        }
        if !data.is_consistent() {
            return Err(LoadError::RootMenuDiffers);
        }
        let mut k: usize = 0;
        while k < data.root.menu.entries.len()
            invariant
                k <= data.root.menu.entries@.len(),
                data.consistent(),
                forall|j: int| 0 <= j < k ==> #[trigger] data.root.menu.entries@[j].reaction is SubMenu,
            decreases data.root.menu.entries@.len() - k,
        {
            match &data.root.menu.entries[k].reaction {
                Reaction::SubMenu { .. } => {},
                Reaction::ClickAction { .. } => {
                    return Err(LoadError::RootEntryNotSubMenu);
                },
            }
            k = k + 1;
        }
        let ghost all = data.root.menu.entries@;
        let Data { root, graph } = data;
        let mut entries = root.menu.entries;
        let mut main_menus: Vec<(Conditional, MenuState)> = Vec::new();
        while entries.len() > 0
            invariant
                main_menus@.len() + entries@.len() == all.len(),
                entries@ == all.subrange(main_menus@.len() as int, all.len() as int),
                all_submenus(all),
                forall|i: int|
                    0 <= i < main_menus@.len() ==> {
                        let entry = #[trigger] all[i];
                        &&& main_menus@[i].0 == entry.display
                        &&& entry.reaction matches Reaction::SubMenu { on_hover, submenu }
                            && main_menus@[i].1 == (MenuState { submenu, on_hover })
                    },
            decreases entries@.len(),
        {
            let ghost n = main_menus@.len() as int;
            assert(entries@[0] == all[n]);
            assert(all[n].reaction is SubMenu);
            let entry = entries.remove(0);
            assert(entries@ =~= all.subrange(n + 1, all.len() as int));
            match entry.reaction {
                Reaction::SubMenu { on_hover, submenu } => {
                    main_menus.push((entry.display, MenuState { submenu, on_hover }));
                },
                Reaction::ClickAction { .. } => {
                    return Err(LoadError::RootEntryNotSubMenu);
                },
            }
        }
        Ok(DelegateState { main_menus, state: root.state, graph })
    }

    /// The tag store.
    pub fn state(&self) -> (r: &State)
        ensures
            r@ == self.tags(),
    {
        &self.state
    }

    /// The graph of menus.
    pub fn graph(&self) -> (r: &Graph)
        ensures
            r@ == self.menus(),
    {
        &self.graph
    }

    /// The top-level menus, each with its condition.
    pub fn main_menus(&self) -> (r: &Vec<(Conditional, MenuState)>)
        ensures
            r@ == self.main_view(),
    {
        &self.main_menus
    }

    /// The index of the first top-level menu whose condition holds; `None` when
    /// none does, which the data should never allow.
    pub fn select_active_root(&self) -> (r: Option<usize>)
        ensures
            match r {
                Some(i) => {
                    &&& i < self.main_view().len()
                    &&& self.main_view()[i as int].0.holds(self.tags())
                    &&& forall|j: int| 0 <= j < i ==> !(#[trigger] self.main_view()[j]).0.holds(self.tags())
                },
                None => forall|j: int|
                    0 <= j < self.main_view().len() ==> !(#[trigger] self.main_view()[j]).0.holds(
                        self.tags(),
                    ),
            },
    {
        let mut i: usize = 0;
        while i < self.main_menus.len()
            invariant
                i <= self.main_menus@.len(),
                forall|j: int| 0 <= j < i ==> !(#[trigger] self.main_menus@[j]).0.holds(self.state@),
            decreases self.main_menus@.len() - i,
        {
            if self.main_menus[i].0.evaluate(&self.state) {
                return Some(i);
            }
            i = i + 1;
        }
        None
    }

    /// Opens `node`: resolves its menu under the current tags, applies the node's
    /// hover action, then tells for each item of the menu whether it is shown and
    /// enabled under the tags as they are after that action.
    pub fn open(&mut self, node: &MenuState) -> (r: Result<Vec<ItemView>, MenuError>)
        ensures
            final(self).menus() == old(self).menus(),
            final(self).main_view() == old(self).main_view(),
            match r {
                Ok(items) => {
                    let menu = old(self).menu_of(node);
                    &&& old(self).knows(node)
                    &&& final(self).tags() == apply_action(
                        old(self).tags(),
                        node.on_hover.set_view(),
                        node.on_hover.unset_view(),
                    )
                    &&& items@.len() == menu.entries@.len()
                    &&& forall|i: int|
                        0 <= i < items@.len() ==> {
                            let item = #[trigger] items@[i];
                            let entry = menu.entries@[i];
                            &&& item.label@ == entry.label@
                            &&& item.visible == entry.display.holds(final(self).tags())
                            &&& item.enabled == entry.active.holds(final(self).tags())
                            &&& item.kind == kind_of(entry.reaction)
                        }
                },
                Err(e) => {
                    &&& e == MenuError::UnknownMenu
                    &&& !old(self).knows(node)
                    &&& final(self).tags() == old(self).tags()
                },
            },
    {
        let id = node.submenu.id(&self.state);
        let menu = match self.graph.get(&id) {
            Some(m) => m,
            None => {
                return Err(MenuError::UnknownMenu);
            },
        };
        self.state.update(&node.on_hover);
        let mut items: Vec<ItemView> = Vec::new();
        let mut i: usize = 0;
        while i < menu.entries.len()
            invariant
                i <= menu.entries@.len(),
                items@.len() == i,
                forall|j: int|
                    0 <= j < i ==> {
                        let item = #[trigger] items@[j];
                        let entry = menu.entries@[j];
                        &&& item.label@ == entry.label@
                        &&& item.visible == entry.display.holds(self.state@)
                        &&& item.enabled == entry.active.holds(self.state@)
                        &&& item.kind == kind_of(entry.reaction)
                    },
            decreases menu.entries@.len() - i,
        {
            let entry = &menu.entries[i];
            let kind = match &entry.reaction {
                Reaction::SubMenu { .. } => ItemKind::SubMenu,
                Reaction::ClickAction { .. } => ItemKind::Activate,
            };
            items.push(
                ItemView {
                    label: entry.label.clone(),
                    visible: entry.display.evaluate(&self.state),
                    enabled: entry.active.evaluate(&self.state),
                    kind,
                },
            );
            i = i + 1;
        }
        Ok(items)
    }

    /// Closes `node`: resolves its menu under the current tags, which may differ from
    /// the tags it was opened under, and applies that menu's leave action.
    pub fn close(&mut self, node: &MenuState) -> (r: Result<(), MenuError>)
        ensures
            final(self).menus() == old(self).menus(),
            final(self).main_view() == old(self).main_view(),
            match r {
                Ok(()) => {
                    let menu = old(self).menu_of(node);
                    &&& old(self).knows(node)
                    &&& final(self).tags() == apply_action(
                        old(self).tags(),
                        menu.on_leave.set_view(),
                        menu.on_leave.unset_view(),
                    )
                },
                Err(e) => {
                    &&& e == MenuError::UnknownMenu
                    &&& !old(self).knows(node)
                    &&& final(self).tags() == old(self).tags()
                },
            },
    {
        let id = node.submenu.id(&self.state);
        let menu = match self.graph.get(&id) {
            Some(m) => m,
            None => {
                return Err(MenuError::UnknownMenu);
            },
        };
        self.state.update(&menu.on_leave);
        Ok(())
    }

    /// The items with which the host fills `node` the first time it finds it empty:
    /// for each item of its menu, the label, and for one that opens a submenu, the
    /// node of that submenu, to be filled in its turn when it is first opened.
    pub fn materialize(&self, node: &MenuState) -> (r: Result<Vec<ChildItem>, MenuError>)
        ensures
            match r {
                Ok(children) => {
                    let menu = self.menu_of(node);
                    &&& self.knows(node)
                    &&& children@.len() == menu.entries@.len()
                    &&& forall|i: int|
                        0 <= i < children@.len() ==> {
                            let child = #[trigger] children@[i];
                            let entry = menu.entries@[i];
                            &&& child.label@ == entry.label@
                            &&& match entry.reaction {
                                Reaction::SubMenu { on_hover, submenu } => child.submenu matches Some(
                                    s,
                                ) && s.submenu == submenu && s.on_hover.set_view()
                                    == on_hover.set_view() && s.on_hover.unset_view()
                                    == on_hover.unset_view(),
                                Reaction::ClickAction { .. } => child.submenu is None,
                            }
                        }
                },
                Err(e) => e == MenuError::UnknownMenu && !self.knows(node),
            },
    {
        let id = node.submenu.id(&self.state);
        let menu = match self.graph.get(&id) {
            Some(m) => m,
            None => {
                return Err(MenuError::UnknownMenu);
            },
        };
        let mut children: Vec<ChildItem> = Vec::new();
        let mut i: usize = 0;
        while i < menu.entries.len()
            invariant
                i <= menu.entries@.len(),
                children@.len() == i,
                forall|j: int|
                    0 <= j < i ==> {
                        let child = #[trigger] children@[j];
                        let entry = menu.entries@[j];
                        &&& child.label@ == entry.label@
                        &&& match entry.reaction {
                            Reaction::SubMenu { on_hover, submenu } => child.submenu matches Some(s)
                                && s.submenu == submenu && s.on_hover.set_view()
                                == on_hover.set_view() && s.on_hover.unset_view()
                                == on_hover.unset_view(),
                            Reaction::ClickAction { .. } => child.submenu is None,
                        }
                    },
            decreases menu.entries@.len() - i,
        {
            let entry = &menu.entries[i];
            let submenu = match &entry.reaction {
                Reaction::SubMenu { on_hover, submenu } => Some(
                    MenuState { submenu: submenu.clone(), on_hover: on_hover.clone() },
                ),
                Reaction::ClickAction { .. } => None,
            };
            children.push(ChildItem { label: entry.label.clone(), submenu });
            i = i + 1;
        }
        Ok(children)
    }

    /// Activates the item at `index` of the menu that `node` stands for: applies the
    /// item's action, and only then returns the effect that the host is to carry out.
    pub fn activate(&mut self, node: &MenuState, index: usize) -> (r: Result<
        Option<ClickAction>,
        MenuError,
    >)
        ensures
            final(self).menus() == old(self).menus(),
            final(self).main_view() == old(self).main_view(),
            ({
                let menu = old(self).menu_of(node);
                match r {
                    Ok(effect) => {
                        &&& old(self).knows(node)
                        &&& index < menu.entries@.len()
                        &&& menu.entries@[index as int].reaction matches Reaction::ClickAction {
                            on_action,
                            act,
                        } && final(self).tags() == apply_action(
                            old(self).tags(),
                            on_action.set_view(),
                            on_action.unset_view(),
                        ) && effect == act
                    },
                    Err(e) => {
                        &&& final(self).tags() == old(self).tags()
                        &&& e == MenuError::UnknownMenu <==> !old(self).knows(node)
                        &&& e == MenuError::NoSuchItem <==> (old(self).knows(node) && index
                            >= menu.entries@.len())
                        &&& e == MenuError::NotAnAction <==> (old(self).knows(node) && index
                            < menu.entries@.len() && menu.entries@[index as int].reaction is SubMenu)
                    },
                }
            }),
    {
        let id = node.submenu.id(&self.state);
        let menu = match self.graph.get(&id) {
            Some(m) => m,
            None => {
                return Err(MenuError::UnknownMenu);
            },
        };
        if index >= menu.entries.len() {
            return Err(MenuError::NoSuchItem);
        }
        match &menu.entries[index].reaction {
            Reaction::SubMenu { .. } => Err(MenuError::NotAnAction),
            Reaction::ClickAction { on_action, act } => {
                self.state.update(on_action);
                let effect = match act {
                    Some(a) => Some(a.clone()),
                    None => None,
                };
                Ok(effect)
            },
        }
    }
}

} // verus!
