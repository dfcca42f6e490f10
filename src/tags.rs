//! The tag store and the actions that change it.
use vstd::prelude::*;
use vstd::std_specs::cmp::PartialEqSpec;

verus! {

/// An identifier of a menu in the graph. Identifiers double as tag keys.
pub struct MenuId(pub String);

impl View for MenuId {
    type V = Seq<char>;

    open spec fn view(&self) -> Seq<char> {
        self.0@
    }
}

impl MenuId {
    /// The identifier with the text `name`.
    pub fn new(name: String) -> (r: MenuId)
        ensures
            r@ == name@,
    {
        MenuId(name)
    }

    /// The text of the identifier.
    pub fn as_str(&self) -> (r: &str)
        ensures
            r@ == self@,
    {
        self.0.as_str()
    }
}

impl Clone for MenuId {
    fn clone(&self) -> (r: MenuId)
        ensures
            r == *self,
    {
        MenuId(self.0.clone())
    }
}

impl PartialEq for MenuId {
    fn eq(&self, other: &MenuId) -> (r: bool) {
        self.0 == other.0
    }
}

impl vstd::std_specs::cmp::PartialEqSpecImpl for MenuId {
    open spec fn obeys_eq_spec() -> bool {
        true
    }

    open spec fn eq_spec(&self, other: &MenuId) -> bool {
        self@ == other@
    }
}

/// One key with its value, as stored in a tag map.
pub struct Tag {
    pub key: MenuId,
    pub value: String,
}

impl Clone for Tag {
    fn clone(&self) -> (r: Tag)
        ensures
            r == *self,
    {
        Tag { key: self.key.clone(), value: self.value.clone() }
    }
}

/// A tag map in the mathematical sense: key to value.
pub type TagMap = Map<Seq<char>, Seq<char>>;

/// No key occurs twice in `tags`.
pub open spec fn keys_unique(tags: Seq<Tag>) -> bool {
    forall|i: int, j: int| 0 <= i < j < tags.len() ==> tags[i].key@ != tags[j].key@
}

/// The map that a list of tags stands for; a later entry wins over an earlier one.
pub open spec fn tag_map(tags: Seq<Tag>) -> TagMap
    decreases tags.len(),
{
    if tags.len() == 0 {
        Map::empty()
    } else {
        tag_map(tags.drop_last()).insert(tags.last().key@, tags.last().value@)
    }
}

/// The tags after an action: every entry of `set` is written first, then every key
/// of `unset` is removed, also one that `set` has just written.
pub open spec fn apply_action(tags: TagMap, set: TagMap, unset: Seq<Seq<char>>) -> TagMap {
    tags.union_prefer_right(set).remove_keys(unset.to_set())
}

proof fn lemma_tag_map_domain(tags: Seq<Tag>, k: Seq<char>)
    ensures
        tag_map(tags).contains_key(k) <==> exists|i: int| 0 <= i < tags.len() && tags[i].key@ == k,
    decreases tags.len(),
{
    if tags.len() > 0 {
        let init = tags.drop_last();
        lemma_tag_map_domain(init, k);
        if tag_map(tags).contains_key(k) && k != tags.last().key@ {
            let i = choose|i: int| 0 <= i < init.len() && init[i].key@ == k;
            assert(tags[i] == init[i]);
        }
        if exists|i: int| 0 <= i < tags.len() && tags[i].key@ == k {
            let i = choose|i: int| 0 <= i < tags.len() && tags[i].key@ == k;
            if i < init.len() {
                assert(init[i] == tags[i]);
            }
        }
    }
}

proof fn lemma_tag_map_value(tags: Seq<Tag>, i: int)
    requires
        keys_unique(tags),
        0 <= i < tags.len(),
    ensures
        tag_map(tags).contains_key(tags[i].key@),
        tag_map(tags)[tags[i].key@] == tags[i].value@,
    decreases tags.len(),
{
    if i < tags.len() - 1 {
        let init = tags.drop_last();
        assert(init[i] == tags[i]);
        lemma_tag_map_value(init, i);
    }
}

proof fn lemma_tag_map_update(tags: Seq<Tag>, i: int, t: Tag)
    requires
        keys_unique(tags),
        0 <= i < tags.len(),
        tags[i].key@ == t.key@,
    ensures
        keys_unique(tags.update(i, t)),
        tag_map(tags.update(i, t)) == tag_map(tags).insert(t.key@, t.value@),
    decreases tags.len(),
{
    let upd = tags.update(i, t);
    if i == tags.len() - 1 {
        assert(upd.drop_last() == tags.drop_last());
        lemma_tag_map_domain(tags.drop_last(), t.key@);
    } else {
        let init = tags.drop_last();
        lemma_tag_map_update(init, i, t);
        assert(upd.drop_last() == init.update(i, t));
        assert(tags.last().key@ != t.key@);
    }
    assert(tag_map(upd) =~= tag_map(tags).insert(t.key@, t.value@));
}

proof fn lemma_tag_map_push(tags: Seq<Tag>, t: Tag)
    requires
        keys_unique(tags),
        !tag_map(tags).contains_key(t.key@),
    ensures
        keys_unique(tags.push(t)),
        tag_map(tags.push(t)) == tag_map(tags).insert(t.key@, t.value@),
{
    assert(tags.push(t).drop_last() == tags);
    lemma_tag_map_domain(tags, t.key@);
    assert forall|i: int, j: int| 0 <= i < j < tags.push(t).len() implies tags.push(t)[i].key@
        != tags.push(t)[j].key@ by {
        if j == tags.len() {
            assert(tags.push(t)[i] == tags[i]);
        }
    }
}

proof fn lemma_tag_map_remove(tags: Seq<Tag>, i: int)
    requires
        keys_unique(tags),
        0 <= i < tags.len(),
    ensures
        keys_unique(tags.remove(i)),
        tag_map(tags.remove(i)) == tag_map(tags).remove(tags[i].key@),
    decreases tags.len(),
{
    let rem = tags.remove(i);
    let k = tags[i].key@;
    if i == tags.len() - 1 {
        assert(rem == tags.drop_last());
        lemma_tag_map_domain(rem, k);
    } else {
        let init = tags.drop_last();
        lemma_tag_map_remove(init, i);
        assert(rem.drop_last() == init.remove(i));
        assert(rem.last() == tags.last());
    }
    assert(tag_map(rem) =~= tag_map(tags).remove(k));
}

/// The index of the tag with key `key`, if there is one.
fn find_tag(tags: &Vec<Tag>, key: &MenuId) -> (r: Option<usize>)
    ensures
        match r {
            Some(i) => i < tags@.len() && tags@[i as int].key@ == key@,
            None => forall|i: int| 0 <= i < tags@.len() ==> tags@[i].key@ != key@,
        },
{
    let mut i: usize = 0;
    while i < tags.len()
        invariant
            i <= tags@.len(),
            forall|j: int| 0 <= j < i ==> tags@[j].key@ != key@,
        decreases tags@.len() - i,
    {
        if tags[i].key == *key {
            return Some(i);
        }
        i = i + 1;
    }
    None
}

/// The tag store: which tags are set, and to which value.
pub struct State {
    tags: Vec<Tag>,
}

impl View for State {
    type V = TagMap;

    closed spec fn view(&self) -> TagMap {
        tag_map(self.tags@)
    }
}

impl State {
    #[verifier::type_invariant]
    spec fn inv(self) -> bool {
        keys_unique(self.tags@)
    }

    /// A store with no tag set.
    pub fn new() -> (r: State)
        ensures
            r@ == Map::<Seq<char>, Seq<char>>::empty(),
    {
        State { tags: Vec::new() }
    }

    /// The tags that are set, each key once.
    pub fn tags(&self) -> (r: &Vec<Tag>)
        ensures
            keys_unique(r@),
            tag_map(r@) == self@,
    {
        proof {
            use_type_invariant(self);
        }
        &self.tags
    }

    /// Whether a tag with key `key` is set.
    pub fn contains_key(&self, key: &MenuId) -> (r: bool)
        ensures
            r == self@.contains_key(key@),
    {
        proof {
            lemma_tag_map_domain(self.tags@, key@);
        }
        find_tag(&self.tags, key).is_some()
    }

    /// The value of the tag with key `key`, if it is set.
    pub fn get(&self, key: &MenuId) -> (r: Option<&String>)
        ensures
            match r {
                Some(v) => self@.contains_key(key@) && self@[key@] == v@,
                None => !self@.contains_key(key@),
            },
    {
        proof {
            use_type_invariant(self);
            lemma_tag_map_domain(self.tags@, key@);
        }
        match find_tag(&self.tags, key) {
            Some(i) => {
                proof {
                    lemma_tag_map_value(self.tags@, i as int);
                }
                Some(&self.tags[i].value)
            },
            None => None,
        }
    }

    /// Sets the tag `key` to `value`, replacing the value it had.
    pub fn insert(&mut self, key: MenuId, value: String)
        ensures
            final(self)@ == old(self)@.insert(key@, value@),
    {
        proof {
            use_type_invariant(&*self);
        }
        let t = Tag { key, value };
        let mut tags: Vec<Tag> = Vec::new();
        std::mem::swap(&mut self.tags, &mut tags);
        match find_tag(&tags, &t.key) {
            Some(i) => {
                proof {
                    lemma_tag_map_update(tags@, i as int, t);
                }
                tags.set(i, t);
            },
            None => {
                proof {
                    lemma_tag_map_domain(tags@, t.key@);
                    lemma_tag_map_push(tags@, t);
                }
                tags.push(t);
            },
        }
        self.tags = tags;
    }

    /// Unsets the tag `key`, if it is set.
    pub fn remove(&mut self, key: &MenuId)
        ensures
            final(self)@ == old(self)@.remove(key@),
    {
        proof {
            use_type_invariant(&*self);
            lemma_tag_map_domain(self.tags@, key@);
        }
        let mut tags: Vec<Tag> = Vec::new();
        std::mem::swap(&mut self.tags, &mut tags);
        match find_tag(&tags, key) {
            Some(i) => {
                proof {
                    lemma_tag_map_remove(tags@, i as int);
                }
                tags.remove(i);
            },
            None => {
                assert(old(self)@.remove(key@) =~= old(self)@);
            },
        }
        self.tags = tags;
    }
}

/// Whether every key of `a` is a key of `b` with the same value.
fn tags_within(a: &Vec<Tag>, b: &Vec<Tag>) -> (r: bool)
    requires
        keys_unique(a@),
        keys_unique(b@),
    ensures
        r == tag_map(a@).submap_of(tag_map(b@)),
{
    let mut i: usize = 0;
    while i < a.len()
        invariant
            i <= a@.len(),
            keys_unique(a@),
            keys_unique(b@),
            forall|j: int|
                0 <= j < i ==> tag_map(b@).contains_key(#[trigger] a@[j].key@) && tag_map(b@)[a@[j].key@]
                    == a@[j].value@,
        decreases a@.len() - i,
    {
        proof {
            lemma_tag_map_domain(b@, a@[i as int].key@);
        }
        match find_tag(b, &a[i].key) {
            Some(j) => {
                proof {
                    lemma_tag_map_value(b@, j as int);
                }
                if a[i].value != b[j].value {
                    proof {
                        lemma_tag_map_value(a@, i as int);
                    }
                    return false;
                }
            },
            None => {
                proof {
                    lemma_tag_map_value(a@, i as int);
                }
                return false;
            },
        }
        i = i + 1;
    }
    proof {
        assert forall|k: Seq<char>| #[trigger] tag_map(a@).contains_key(k) implies tag_map(b@).contains_key(k)
            && tag_map(b@)[k] == tag_map(a@)[k] by {
            lemma_tag_map_domain(a@, k);
            let j = choose|j: int| 0 <= j < a@.len() && a@[j].key@ == k;
            lemma_tag_map_value(a@, j);
        }
    }
    true
}

/// Whether `a` and `b` hold the same keys in the same order.
fn same_keys(a: &Vec<MenuId>, b: &Vec<MenuId>) -> (r: bool)
    ensures
        r == (a@.map_values(|k: MenuId| k@) == b@.map_values(|k: MenuId| k@)),
{
    if a.len() != b.len() {
        proof {
            assert(a@.map_values(|k: MenuId| k@).len() != b@.map_values(|k: MenuId| k@).len());
        }
        return false;
    }
    let mut i: usize = 0;
    while i < a.len()
        invariant
            i <= a@.len(),
            a@.len() == b@.len(),
            forall|j: int| 0 <= j < i ==> a@[j]@ == b@[j]@,
        decreases a@.len() - i,
    {
        if a[i] != b[i] {
            proof {
                assert(a@.map_values(|k: MenuId| k@)[i as int] != b@.map_values(|k: MenuId| k@)[i as int]);
            }
            return false;
        }
        i = i + 1;
    }
    assert(a@.map_values(|k: MenuId| k@) =~= b@.map_values(|k: MenuId| k@));
    true
}

/// A change of the tag store: tags to set, with their values, and tags to unset.
pub struct Action {
    set_tags: Vec<Tag>,
    unset_tags: Vec<MenuId>,
}

impl Action {
    #[verifier::type_invariant]
    spec fn inv(self) -> bool {
        keys_unique(self.set_tags@)
    }

    /// The tags that the action sets, with their values.
    pub closed spec fn set_view(&self) -> TagMap {
        tag_map(self.set_tags@)
    }

    /// The tags that the action unsets, in order.
    pub closed spec fn unset_view(&self) -> Seq<Seq<char>> {
        self.unset_tags@.map_values(|k: MenuId| k@)
    }

    /// An action that changes nothing.
    pub fn new() -> (r: Action)
        ensures
            r.set_view() == Map::<Seq<char>, Seq<char>>::empty(),
            r.unset_view() == Seq::<Seq<char>>::empty(),
    {
        let r = Action { set_tags: Vec::new(), unset_tags: Vec::new() };
        assert(r.unset_view() =~= Seq::<Seq<char>>::empty());
        r
    }

    /// Adds `key` with `value` to the tags to set, replacing a value given before.
    pub fn set_tag(&mut self, key: MenuId, value: String)
        ensures
            final(self).set_view() == old(self).set_view().insert(key@, value@),
            final(self).unset_view() == old(self).unset_view(),
    {
        proof {
            use_type_invariant(&*self);
        }
        let t = Tag { key, value };
        let mut tags: Vec<Tag> = Vec::new();
        std::mem::swap(&mut self.set_tags, &mut tags);
        match find_tag(&tags, &t.key) {
            Some(i) => {
                proof {
                    lemma_tag_map_update(tags@, i as int, t);
                }
                tags.set(i, t);
            },
            None => {
                proof {
                    lemma_tag_map_domain(tags@, t.key@);
                    lemma_tag_map_push(tags@, t);
                }
                tags.push(t);
            },
        }
        self.set_tags = tags;
    }

    /// Appends `key` to the tags to unset.
    pub fn unset_tag(&mut self, key: MenuId)
        ensures
            final(self).set_view() == old(self).set_view(),
            final(self).unset_view() == old(self).unset_view().push(key@),
    {
        proof {
            use_type_invariant(&*self);
        }
        let mut keys: Vec<MenuId> = Vec::new();
        std::mem::swap(&mut self.unset_tags, &mut keys);
        keys.push(key);
        self.unset_tags = keys;
        assert(self.unset_view() =~= old(self).unset_view().push(key@));
    }

    /// The tags to set, each key once.
    pub fn set_tags(&self) -> (r: &Vec<Tag>)
        ensures
            keys_unique(r@),
            tag_map(r@) == self.set_view(),
    {
        proof {
            use_type_invariant(self);
        }
        &self.set_tags
    }

    /// The tags to unset, in order.
    pub fn unset_tags(&self) -> (r: &Vec<MenuId>)
        ensures
            r@.map_values(|k: MenuId| k@) == self.unset_view(),
    {
        &self.unset_tags
    }
}

impl Default for Action {
    fn default() -> (r: Action)
        ensures
            r.set_view() == Map::<Seq<char>, Seq<char>>::empty(),
            r.unset_view() == Seq::<Seq<char>>::empty(),
    {
        Action::new()
    }
}

impl Clone for Action {
    fn clone(&self) -> (r: Action)
        ensures
            r.set_view() == self.set_view(),
            r.unset_view() == self.unset_view(),
    {
        proof {
            use_type_invariant(self);
        }
        let set_tags = self.set_tags.clone();
        let unset_tags = self.unset_tags.clone();
        assert(set_tags@ =~= self.set_tags@);
        assert(unset_tags@ =~= self.unset_tags@);
        Action { set_tags, unset_tags }
    }
}

impl PartialEq for Action {
    fn eq(&self, other: &Action) -> (r: bool) {
        proof {
            use_type_invariant(self);
            use_type_invariant(other);
        }
        let same_unset = same_keys(&self.unset_tags, &other.unset_tags);
        let r = same_unset && tags_within(&self.set_tags, &other.set_tags) && tags_within(
            &other.set_tags,
            &self.set_tags,
        );
        proof {
            if self.set_view() == other.set_view() {
                assert(self.set_view().submap_of(other.set_view()));
            }
            if tag_map(self.set_tags@).submap_of(tag_map(other.set_tags@)) && tag_map(
                other.set_tags@,
            ).submap_of(tag_map(self.set_tags@)) {
                assert(self.set_view() =~= other.set_view());
            }
        }
        r
    }
}

impl vstd::std_specs::cmp::PartialEqSpecImpl for Action {
    open spec fn obeys_eq_spec() -> bool {
        true
    }

    open spec fn eq_spec(&self, other: &Action) -> bool {
        self.set_view() == other.set_view() && self.unset_view() == other.unset_view()
    }
}

impl State {
    /// Applies `action`: writes all its tags to set, then removes all its tags to
    /// unset, so that a key in both ends up unset.
    pub fn update(&mut self, action: &Action)
        ensures
            final(self)@ == apply_action(old(self)@, action.set_view(), action.unset_view()),
    {
        proof {
            use_type_invariant(action);
        }
        let ghost start = self@;
        let set_tags = &action.set_tags;
        let mut i: usize = 0;
        while i < set_tags.len()
            invariant
                i <= set_tags@.len(),
                set_tags == &action.set_tags,
                self@ == start.union_prefer_right(tag_map(set_tags@.take(i as int))),
            decreases set_tags@.len() - i,
        {
            let t = &set_tags[i];
            assert(set_tags@.take(i + 1).drop_last() == set_tags@.take(i as int));
            self.insert(t.key.clone(), t.value.clone());
            assert(self@ =~= start.union_prefer_right(tag_map(set_tags@.take(i + 1))));
            i = i + 1;
        }
        assert(set_tags@.take(i as int) == set_tags@);
        let ghost written = self@;
        let unset_tags = &action.unset_tags;
        let mut j: usize = 0;
        while j < unset_tags.len()
            invariant
                j <= unset_tags@.len(),
                unset_tags == &action.unset_tags,
                self@ == written.remove_keys(unset_tags@.take(j as int).map_values(|k: MenuId| k@).to_set()),
            decreases unset_tags@.len() - j,
        {
            self.remove(&unset_tags[j]);
            let ghost before = unset_tags@.take(j as int).map_values(|k: MenuId| k@);
            let ghost after = unset_tags@.take(j + 1).map_values(|k: MenuId| k@);
            assert(after =~= before.push(unset_tags@[j as int]@));
            assert(after.to_set() =~= before.to_set().insert(unset_tags@[j as int]@)) by {
                assert forall|x: Seq<char>| after.contains(x) implies before.contains(x) || x
                    == unset_tags@[j as int]@ by {
                    let n = choose|n: int| 0 <= n < after.len() && after[n] == x;
                    if n < j {
                        assert(before[n] == x);
                    }
                }
                assert forall|x: Seq<char>| before.contains(x) implies after.contains(x) by {
                    let n = choose|n: int| 0 <= n < before.len() && before[n] == x;
                    assert(after[n] == x);
                }
                assert(after[j as int] == unset_tags@[j as int]@);
            }
            assert(self@ =~= written.remove_keys(
                unset_tags@.take(j + 1).map_values(|k: MenuId| k@).to_set(),
            ));
            j = j + 1;
        }
        assert(unset_tags@.take(j as int) == unset_tags@);
    }
}

} // verus!
