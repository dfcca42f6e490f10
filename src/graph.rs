//! The menu graph: menus by identifier, and the data that a menu system starts from.
use crate::menu::Menu;
use crate::tags::{MenuId, State};
use vstd::prelude::*;

verus! {

/// No identifier occurs twice in `menus`.
pub open spec fn ids_unique(menus: Seq<(MenuId, Menu)>) -> bool {
    forall|i: int, j: int| 0 <= i < j < menus.len() ==> menus[i].0@ != menus[j].0@
}

/// Whether some entry of `menus` has the identifier `id`.
pub open spec fn has_id(menus: Seq<(MenuId, Menu)>, id: Seq<char>) -> bool {
    exists|i: int| 0 <= i < menus.len() && #[trigger] menus[i].0@ == id
}

/// The map from identifier to menu that `menus` stands for.
pub open spec fn menu_map(menus: Seq<(MenuId, Menu)>) -> Map<Seq<char>, Menu> {
    Map::new(
        |id: Seq<char>| has_id(menus, id),
        |id: Seq<char>| menus[choose|i: int| 0 <= i < menus.len() && #[trigger] menus[i].0@ == id].1,
    )
}

proof fn lemma_menu_map_at(menus: Seq<(MenuId, Menu)>, i: int)
    requires
        ids_unique(menus),
        0 <= i < menus.len(),
    ensures
        menu_map(menus).contains_key(menus[i].0@),
        menu_map(menus)[menus[i].0@] == menus[i].1,
{
    let id = menus[i].0@;
    assert(has_id(menus, id));
    let j = choose|j: int| 0 <= j < menus.len() && #[trigger] menus[j].0@ == id;
    if j != i {
        if j < i {
            assert(menus[j].0@ != menus[i].0@);
        } else {
            assert(menus[i].0@ != menus[j].0@);
        }
    }
}

fn find_menu(menus: &Vec<(MenuId, Menu)>, id: &MenuId) -> (r: Option<usize>)
    ensures
        match r {
            Some(i) => i < menus@.len() && menus@[i as int].0@ == id@,
            None => !has_id(menus@, id@),
        },
{
    let mut i: usize = 0;
    while i < menus.len()
        invariant
            i <= menus@.len(),
            forall|j: int| 0 <= j < i ==> menus@[j].0@ != id@,
        decreases menus@.len() - i,
    {
        if menus[i].0 == *id {
            return Some(i);
        }
        i = i + 1;
    }
    None
}

/// The menus of the system, by identifier.
pub struct Graph {
    menus: Vec<(MenuId, Menu)>,
}

impl View for Graph {
    type V = Map<Seq<char>, Menu>;

    closed spec fn view(&self) -> Map<Seq<char>, Menu> {
        menu_map(self.menus@)
    }
}

impl Graph {
    #[verifier::type_invariant]
    spec fn inv(self) -> bool {
        ids_unique(self.menus@)
    }

    /// A graph without menus.
    pub fn new() -> (r: Graph)
        ensures
            r@ == Map::<Seq<char>, Menu>::empty(),
    {
        let r = Graph { menus: Vec::new() };
        assert(r@ =~= Map::<Seq<char>, Menu>::empty());
        r
    }

    /// The menu with identifier `id`, if the graph has one.
    pub fn get(&self, id: &MenuId) -> (r: Option<&Menu>)
        ensures
            match r {
                Some(m) => self@.contains_key(id@) && *m == self@[id@],
                None => !self@.contains_key(id@),
            },
    {
        proof {
            use_type_invariant(self);
        }
        match find_menu(&self.menus, id) {
            Some(i) => {
                proof {
                    lemma_menu_map_at(self.menus@, i as int);
                }
                Some(&self.menus[i].1)
            },
            None => None,
        }
    }

    /// Puts `menu` under `id`, replacing the menu that was there.
    pub fn insert(&mut self, id: MenuId, menu: Menu)
        ensures
            final(self)@ == old(self)@.insert(id@, menu),
    {
        proof {
            use_type_invariant(&*self);
        }
        let ghost old_menus = self.menus@;
        let mut menus: Vec<(MenuId, Menu)> = Vec::new();
        std::mem::swap(&mut self.menus, &mut menus);
        let ghost key = id@;
        match find_menu(&menus, &id) {
            Some(i) => {
                menus.set(i, (id, menu));
            },
            None => {
                menus.push((id, menu));
            },
        }
        let ghost new_menus = menus@;
        proof {
            assert(ids_unique(new_menus)) by {
                assert forall|a: int, b: int| 0 <= a < b < new_menus.len() implies new_menus[a].0@
                    != new_menus[b].0@ by {
                    if new_menus[a].0@ == key && a < old_menus.len() {
                        assert(old_menus[a].0@ == key || new_menus[a] != old_menus[a]);
                    }
                    if new_menus[b].0@ == key && b < old_menus.len() {
                        assert(old_menus[b].0@ == key || new_menus[b] != old_menus[b]);
                    }
                }
            }
            let target = old(self)@.insert(key, menu);
            assert forall|k: Seq<char>| #[trigger] menu_map(new_menus).contains_key(k) <==> target.contains_key(k) by {
                if has_id(new_menus, k) && k != key {
                    let j = choose|j: int| 0 <= j < new_menus.len() && #[trigger] new_menus[j].0@ == k;
                    assert(old_menus[j] == new_menus[j]);
                }
                if has_id(old_menus, k) && k != key {
                    let j = choose|j: int| 0 <= j < old_menus.len() && #[trigger] old_menus[j].0@ == k;
                    assert(old_menus[j] == new_menus[j]);
                }
                if k == key {
                    let n = if has_id(old_menus, key) {
                        choose|j: int| 0 <= j < old_menus.len() && #[trigger] old_menus[j].0@ == key
                    } else {
                        old_menus.len() as int
                    };
                    assert(new_menus[n].0@ == key);
                }
            }
            assert forall|k: Seq<char>| #[trigger] target.contains_key(k) implies menu_map(new_menus)[k]
                == target[k] by {
                if k != key {
                    let j = choose|j: int| 0 <= j < old_menus.len() && #[trigger] old_menus[j].0@ == k;
                    assert(old_menus[j] == new_menus[j]);
                    lemma_menu_map_at(old_menus, j);
                    lemma_menu_map_at(new_menus, j);
                } else {
                    assert(menu_map(new_menus).contains_key(key));
                    assert(has_id(new_menus, key));
                    let n = choose|j: int| 0 <= j < new_menus.len() && #[trigger] new_menus[j].0@ == key;
                    lemma_menu_map_at(new_menus, n);
                }
            }
            assert(menu_map(new_menus) =~= target);
        }
        self.menus = menus;
    }

    /// The identifiers and menus of the graph, each identifier once.
    pub fn menus(&self) -> (r: &Vec<(MenuId, Menu)>)
        ensures
            ids_unique(r@),
            menu_map(r@) == self@,
    {
        proof {
            use_type_invariant(self);
        }
        &self.menus
    }
}

/// The starting point of the menu system: the initial tags, and the root menu.
pub struct Root {
    pub state: State,
    pub menu: Menu,
}

/// All that the menu system is loaded from.
pub struct Data {
    pub root: Root,
    pub graph: Graph,
}

impl Data {
    /// Whether the graph holds the root menu under the root menu's own identifier,
    /// and holds there the same menu as the root.
    pub open spec fn consistent(&self) -> bool {
        &&& self.graph@.contains_key(self.root.menu.id@)
        &&& self.graph@[self.root.menu.id@].same(&self.root.menu)
    }

    /// Checks that the graph holds the root menu, unchanged, under its identifier.
    pub fn is_consistent(&self) -> (r: bool)
        ensures
            r == self.consistent(),
    {
        match self.graph.get(&self.root.menu.id) {
            Some(menu) => *menu == self.root.menu,
            None => false,
        }
    }
}

} // verus!
