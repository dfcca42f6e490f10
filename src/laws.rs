//! Laws of evaluation and of actions.
use crate::condition::{all_from, any_from, Conditional};
use crate::tags::{apply_action, Action, TagMap};
use vstd::prelude::*;

verus! {

/// Negating a condition negates its value, whatever the tags.
pub proof fn lemma_not_negates(e: Conditional, tags: TagMap)
    ensures
        (Conditional::TLNot { contents: Box::new(e) }).holds(tags) == !e.holds(tags),
{
}

/// A conjunction of no conditions holds and a disjunction of none does not,
/// whatever the tags.
pub proof fn lemma_empty_and_or(items: Vec<Conditional>, tags: TagMap)
    requires
        items@.len() == 0,
    ensures
        (Conditional::TLAnd { contents: items }).holds(tags),
        !(Conditional::TLOr { contents: items }).holds(tags),
{
    assert(all_from(items@, 0, tags));
    assert(!any_from(items@, 0, tags));
}

/// Within one action unset wins over set: a key that the action both sets and
/// unsets is absent afterwards, a key that it only sets has the value it sets, and
/// so all that the action sets is in effect afterwards exactly when no key is both
/// set and unset. Applying the action a second time changes nothing more.
pub proof fn lemma_unset_wins(action: Action, tags: TagMap)
    ensures
        ({
            let after = apply_action(tags, action.set_view(), action.unset_view());
            &&& forall|k: Seq<char>|
                action.set_view().contains_key(k) && action.unset_view().contains(k)
                    ==> !(#[trigger] after.contains_key(k))
            &&& forall|k: Seq<char>|
                action.set_view().contains_key(k) && !action.unset_view().contains(k) ==> (
                #[trigger] after.contains_key(k)) && after[k] == action.set_view()[k]
            &&& (forall|k: Seq<char>| #[trigger]
                action.set_view().contains_key(k) ==> after.contains_key(k) && after[k]
                    == action.set_view()[k]) <==> action.set_view().dom().disjoint(
                action.unset_view().to_set(),
            )
            &&& apply_action(after, action.set_view(), action.unset_view()) == after
        }),
{
    let set = action.set_view();
    let unset = action.unset_view();
    let after = apply_action(tags, set, unset);
    assert forall|k: Seq<char>| unset.contains(k) <==> #[trigger] unset.to_set().contains(k) by {}
    if forall|k: Seq<char>| #[trigger] set.contains_key(k) ==> after.contains_key(k) && after[k]
        == set[k] {
        assert forall|k: Seq<char>|
            !(#[trigger] set.dom().contains(k) && unset.to_set().contains(k)) by {
            if set.contains_key(k) {
                assert(after.contains_key(k));
            }
        }
        assert(set.dom().disjoint(unset.to_set()));
    }
    if set.dom().disjoint(unset.to_set()) {
        assert forall|k: Seq<char>| #[trigger] set.contains_key(k) implies after.contains_key(k)
            && after[k] == set[k] by {
            assert(set.dom().contains(k));
            assert(!unset.to_set().contains(k));
        }
    }
    assert(apply_action(after, set, unset) =~= after);
}

} // verus!
