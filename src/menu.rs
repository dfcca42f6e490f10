//! Menus, their items, and what the items do.
use crate::condition::Conditional;
use crate::tags::{Action, MenuId, State, TagMap};
use vstd::prelude::*;

verus! {

/// A reference to a submenu: a base identifier, and the key of a tag whose value,
/// when the tag is set, is appended to it.
pub struct SubMenu {
    pub sub_menu: MenuId,
    pub sub_id_postfix: Option<MenuId>,
}

/// The view of an optional identifier.
pub open spec fn opt_id(id: Option<MenuId>) -> Option<Seq<char>> {
    match id {
        Some(k) => Some(k@),
        None => None,
    }
}

impl SubMenu {
    /// The reference to `sub_menu`, with the postfix tag `sub_id_postfix` if any.
    pub fn new(sub_menu: MenuId, sub_id_postfix: Option<MenuId>) -> (r: SubMenu)
        ensures
            r.sub_menu@ == sub_menu@,
            opt_id(r.sub_id_postfix) == opt_id(sub_id_postfix),
    {
        SubMenu { sub_menu, sub_id_postfix }
    }

    /// The identifier that the reference stands for under `tags`: the base, with the
    /// value of the postfix tag appended when that tag is set.
    pub open spec fn resolve(&self, tags: TagMap) -> Seq<char> {
        match self.sub_id_postfix {
            Some(key) => if tags.contains_key(key@) {
                self.sub_menu@ + tags[key@]
            } else {
                self.sub_menu@
            },
            None => self.sub_menu@,
        }
    }

    /// Whether the two references are the same.
    pub open spec fn same(&self, other: &SubMenu) -> bool {
        self.sub_menu@ == other.sub_menu@ && opt_id(self.sub_id_postfix) == opt_id(
            other.sub_id_postfix,
        )
    }

    /// The identifier of the menu that the reference stands for in `state`. An
    /// unset postfix tag is no error: the base identifier is used as it is.
    pub fn id(&self, state: &State) -> (r: MenuId)
        ensures
            r@ == self.resolve(state@),
    {
        match &self.sub_id_postfix {
            Some(postfix_id) => match state.get(postfix_id) {
                Some(postfix) => MenuId(self.sub_menu.0.clone().concat(postfix.as_str())),
                None => self.sub_menu.clone(),
            },
            None => self.sub_menu.clone(),
        }
    }
}

fn same_opt_id(a: &Option<MenuId>, b: &Option<MenuId>) -> (r: bool)
    ensures
        r == (opt_id(*a) == opt_id(*b)),
{
    match (a, b) {
        (Some(x), Some(y)) => *x == *y,
        (None, None) => true,
        _ => false,
    }
}

impl Clone for SubMenu {
    fn clone(&self) -> (r: SubMenu)
        ensures
            r == *self,
    {
        let sub_id_postfix = match &self.sub_id_postfix {
            Some(k) => Some(k.clone()),
            None => None,
        };
        SubMenu { sub_menu: self.sub_menu.clone(), sub_id_postfix }
    }
}

impl PartialEq for SubMenu {
    fn eq(&self, other: &SubMenu) -> (r: bool) {
        self.sub_menu == other.sub_menu && same_opt_id(&self.sub_id_postfix, &other.sub_id_postfix)
    }
}

impl vstd::std_specs::cmp::PartialEqSpecImpl for SubMenu {
    open spec fn obeys_eq_spec() -> bool {
        true
    }

    open spec fn eq_spec(&self, other: &SubMenu) -> bool {
        self.same(other)
    }
}

/// What the host is asked to do when an item is clicked.
#[allow(inconsistent_fields)]
pub enum ClickAction {
    /// Nothing beyond closing the menu.
    ColapseMenu,
    /// Open a URL.
    Nav { url: String },
    /// Download a URL to a file name.
    Download { url: String, filename: String },
    /// Call a named script function.
    JSCall { js_call: String },
}

impl ClickAction {
    /// Whether the two effects are the same.
    pub open spec fn same(&self, other: &ClickAction) -> bool {
        match (self, other) {
            (ClickAction::ColapseMenu, ClickAction::ColapseMenu) => true,
            (ClickAction::Nav { url: a }, ClickAction::Nav { url: b }) => a@ == b@,
            (
                ClickAction::Download { url: a, filename: f },
                ClickAction::Download { url: b, filename: g },
            ) => a@ == b@ && f@ == g@,
            (ClickAction::JSCall { js_call: a }, ClickAction::JSCall { js_call: b }) => a@ == b@,
            _ => false,
        }
    }
}

impl Clone for ClickAction {
    fn clone(&self) -> (r: ClickAction)
        ensures
            r == *self,
    {
        match self {
            ClickAction::ColapseMenu => ClickAction::ColapseMenu,
            ClickAction::Nav { url } => ClickAction::Nav { url: url.clone() },
            ClickAction::Download { url, filename } => ClickAction::Download {
                url: url.clone(),
                filename: filename.clone(),
            },
            ClickAction::JSCall { js_call } => ClickAction::JSCall { js_call: js_call.clone() },
        }
    }
}

impl PartialEq for ClickAction {
    fn eq(&self, other: &ClickAction) -> (r: bool) {
        match (self, other) {
            (ClickAction::ColapseMenu, ClickAction::ColapseMenu) => true,
            (ClickAction::Nav { url: a }, ClickAction::Nav { url: b }) => *a == *b,
            (
                ClickAction::Download { url: a, filename: f },
                ClickAction::Download { url: b, filename: g },
            ) => *a == *b && *f == *g,
            (ClickAction::JSCall { js_call: a }, ClickAction::JSCall { js_call: b }) => *a == *b,
            _ => false,
        }
    }
}

impl vstd::std_specs::cmp::PartialEqSpecImpl for ClickAction {
    open spec fn obeys_eq_spec() -> bool {
        true
    }

    open spec fn eq_spec(&self, other: &ClickAction) -> bool {
        self.same(other)
    }
}

/// Whether two optional click effects are the same.
pub open spec fn same_effect(a: Option<ClickAction>, b: Option<ClickAction>) -> bool {
    match (a, b) {
        (Some(x), Some(y)) => x.same(&y),
        (None, None) => true,
        _ => false,
    }
}

/// What an item does: open a submenu on hover, or act when clicked.
pub enum Reaction {
    /// Hovering applies `on_hover` and opens the submenu that `submenu` resolves to.
    SubMenu { on_hover: Action, submenu: SubMenu },
    /// Clicking applies `on_action`, then hands `act` to the host.
    ClickAction { on_action: Action, act: Option<ClickAction> },
}

/// Whether the two actions have the same tags to set and to unset.
pub open spec fn same_action(a: Action, b: Action) -> bool {
    a.set_view() == b.set_view() && a.unset_view() == b.unset_view()
}

impl Reaction {
    /// Whether the two reactions are the same.
    pub open spec fn same(&self, other: &Reaction) -> bool {
        match (self, other) {
            (
                Reaction::SubMenu { on_hover: a, submenu: s },
                Reaction::SubMenu { on_hover: b, submenu: t },
            ) => same_action(*a, *b) && s.same(t),
            (
                Reaction::ClickAction { on_action: a, act: x },
                Reaction::ClickAction { on_action: b, act: y },
            ) => same_action(*a, *b) && same_effect(*x, *y),
            _ => false,
        }
    }
}

fn same_effects(a: &Option<ClickAction>, b: &Option<ClickAction>) -> (r: bool)
    ensures
        r == same_effect(*a, *b),
{
    match (a, b) {
        (Some(x), Some(y)) => *x == *y,
        (None, None) => true,
        _ => false,
    }
}

impl PartialEq for Reaction {
    fn eq(&self, other: &Reaction) -> (r: bool) {
        match (self, other) {
            (
                Reaction::SubMenu { on_hover: a, submenu: s },
                Reaction::SubMenu { on_hover: b, submenu: t },
            ) => *a == *b && *s == *t,
            (
                Reaction::ClickAction { on_action: a, act: x },
                Reaction::ClickAction { on_action: b, act: y },
            ) => *a == *b && same_effects(x, y),
            _ => false,
        }
    }
}

impl vstd::std_specs::cmp::PartialEqSpecImpl for Reaction {
    open spec fn obeys_eq_spec() -> bool {
        true
    }

    open spec fn eq_spec(&self, other: &Reaction) -> bool {
        self.same(other)
    }
}

/// An item of a menu.
pub struct MenuItem {
    /// Carried along; nothing reads it.
    pub icon: Option<String>,
    /// The text shown on the item.
    pub label: String,
    /// Whether the item is shown.
    pub display: Conditional,
    /// Whether the item can be clicked.
    pub active: Conditional,
    /// What hovering or clicking the item does.
    pub reaction: Reaction,
}

/// The view of an optional string.
pub open spec fn opt_str(s: Option<String>) -> Option<Seq<char>> {
    match s {
        Some(t) => Some(t@),
        None => None,
    }
}

impl MenuItem {
    /// Whether the two items are the same.
    pub open spec fn same(&self, other: &MenuItem) -> bool {
        &&& opt_str(self.icon) == opt_str(other.icon)
        &&& self.label@ == other.label@
        &&& self.display.same(&other.display)
        &&& self.active.same(&other.active)
        &&& self.reaction.same(&other.reaction)
    }
}

fn same_opt_str(a: &Option<String>, b: &Option<String>) -> (r: bool)
    ensures
        r == (opt_str(*a) == opt_str(*b)),
{
    match (a, b) {
        (Some(x), Some(y)) => *x == *y,
        (None, None) => true,
        _ => false,
    }
}

impl PartialEq for MenuItem {
    fn eq(&self, other: &MenuItem) -> (r: bool) {
        same_opt_str(&self.icon, &other.icon) && self.label == other.label && self.display
            == other.display && self.active == other.active && self.reaction == other.reaction
    }
}

impl vstd::std_specs::cmp::PartialEqSpecImpl for MenuItem {
    open spec fn obeys_eq_spec() -> bool {
        true
    }

    open spec fn eq_spec(&self, other: &MenuItem) -> bool {
        self.same(other)
    }
}

/// A menu: its identifier, the action applied when it closes, and its items.
pub struct Menu {
    pub id: MenuId,
    pub on_leave: Action,
    pub entries: Vec<MenuItem>,
}

impl Menu {
    /// Whether the two menus are the same, item by item.
    pub open spec fn same(&self, other: &Menu) -> bool {
        &&& self.id@ == other.id@
        &&& same_action(self.on_leave, other.on_leave)
        &&& self.entries@.len() == other.entries@.len()
        &&& forall|i: int|
            0 <= i < self.entries@.len() ==> #[trigger] self.entries@[i].same(&other.entries@[i])
    }
}

impl PartialEq for Menu {
    fn eq(&self, other: &Menu) -> (r: bool) {
        if !(self.id == other.id && self.on_leave == other.on_leave) || self.entries.len()
            != other.entries.len() {
            return false;
        }
        let mut i: usize = 0;
        while i < self.entries.len()
            invariant
                i <= self.entries@.len(),
                self.entries@.len() == other.entries@.len(),
                forall|j: int| 0 <= j < i ==> #[trigger] self.entries@[j].same(&other.entries@[j]),
            decreases self.entries@.len() - i,
        {
            if self.entries[i] != other.entries[i] {
                return false;
            }
            i = i + 1;
        }
        true
    }
}

impl vstd::std_specs::cmp::PartialEqSpecImpl for Menu {
    open spec fn obeys_eq_spec() -> bool {
        true
    }

    open spec fn eq_spec(&self, other: &Menu) -> bool {
        self.same(other)
    }
}

} // verus!
