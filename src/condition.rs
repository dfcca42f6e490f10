//! Boolean conditions over the tag store, and their evaluation.
use crate::tags::{MenuId, State, TagMap};
use vstd::prelude::*;

verus! {

broadcast use {vstd::std_specs::vec::group_vec_axioms, vstd::seq::group_seq_axioms};

/// A condition on which tags are set.
#[allow(inconsistent_fields)]
pub enum Conditional {
    /// Always true.
    Always,
    /// True when the tag is set.
    TagSet { contents: MenuId },
    /// True when the tag is not set.
    TagUnset { contents: MenuId },
    /// The negation of a condition.
    TLNot { contents: Box<Conditional> },
    /// True when all conditions are; true on none.
    TLAnd { contents: Vec<Conditional> },
    /// True when any condition is; false on none.
    TLOr { contents: Vec<Conditional> },
}

impl Conditional {
    /// Whether the condition holds when the tags in `tags` are set.
    pub open spec fn holds(&self, tags: TagMap) -> bool
        decreases self, 0int,
    {
        match self {
            Conditional::Always => true,
            Conditional::TagSet { contents } => tags.contains_key(contents@),
            Conditional::TagUnset { contents } => !tags.contains_key(contents@),
            Conditional::TLNot { contents } => !contents.holds(tags),
            Conditional::TLAnd { contents } => all_from(contents@, 0, tags),
            Conditional::TLOr { contents } => any_from(contents@, 0, tags),
        }
    }

    /// The number of nodes of the condition.
    pub open spec fn size(&self) -> nat
        decreases self, 0int,
    {
        match self {
            Conditional::TLNot { contents } => 1 + contents.size(),
            Conditional::TLAnd { contents } => 1 + size_from(contents@, 0),
            Conditional::TLOr { contents } => 1 + size_from(contents@, 0),
            _ => 1,
        }
    }
}

/// Whether all conditions of `items` from index `from` on hold.
pub open spec fn all_from(items: Seq<Conditional>, from: int, tags: TagMap) -> bool
    decreases items, items.len() - from,
{
    if 0 <= from < items.len() {
        items[from].holds(tags) && all_from(items, from + 1, tags)
    } else {
        true
    }
}

/// Whether any condition of `items` from index `from` on holds.
pub open spec fn any_from(items: Seq<Conditional>, from: int, tags: TagMap) -> bool
    decreases items, items.len() - from,
{
    if 0 <= from < items.len() {
        items[from].holds(tags) || any_from(items, from + 1, tags)
    } else {
        false
    }
}

/// The number of nodes of the conditions of `items` from index `from` on.
pub open spec fn size_from(items: Seq<Conditional>, from: int) -> nat
    decreases items, items.len() - from,
{
    if 0 <= from < items.len() {
        items[from].size() + size_from(items, from + 1)
    } else {
        0
    }
}


/// What is left to do above a node while a condition is evaluated without recursion.
enum Frame<'a> {
    /// Negate the value that comes up.
    Not,
    /// The value of `items[index]` comes up; the items after it are still to be seen.
    All { items: &'a Vec<Conditional>, index: usize },
    /// As `All`, for a disjunction.
    Any { items: &'a Vec<Conditional>, index: usize },
}

spec fn frame_ok(f: Frame) -> bool {
    match f {
        Frame::Not => true,
        Frame::All { items, index } => index < items@.len(),
        Frame::Any { items, index } => index < items@.len(),
    }
}

spec fn frames_ok(stack: Seq<Frame>) -> bool {
    forall|i: int| 0 <= i < stack.len() ==> #[trigger] frame_ok(stack[i])
}

/// The value of the enclosing node, once the value `v` comes up through frame `f`.
spec fn step(f: Frame, v: bool, tags: TagMap) -> bool {
    match f {
        Frame::Not => !v,
        Frame::All { items, index } => v && all_from(items@, index + 1, tags),
        Frame::Any { items, index } => v || any_from(items@, index + 1, tags),
    }
}

/// The value of the whole condition, once the value `v` comes up through `stack`.
spec fn plug(stack: Seq<Frame>, v: bool, tags: TagMap) -> bool
    decreases stack.len(),
{
    if stack.len() == 0 {
        v
    } else {
        plug(stack.drop_last(), step(stack.last(), v, tags), tags)
    }
}

/// The number of nodes that the frames of `stack` have still to visit.
spec fn pending(stack: Seq<Frame>) -> nat
    decreases stack.len(),
{
    if stack.len() == 0 {
        0
    } else {
        pending(stack.drop_last()) + match stack.last() {
            Frame::Not => 0,
            Frame::All { items, index } => size_from(items@, index + 1),
            Frame::Any { items, index } => size_from(items@, index + 1),
        }
    }
}

proof fn lemma_size_from_split(items: Seq<Conditional>, from: int)
    requires
        0 <= from < items.len(),
    ensures
        size_from(items, from) == items[from].size() + size_from(items, from + 1),
        items[from].size() >= 1,
{
    reveal_with_fuel(size_from, 2);
    match items[from] {
        Conditional::TLNot { .. } => {},
        _ => {},
    }
}

impl Conditional {
    /// Evaluates the condition against the tags of `state`. The evaluation keeps
    /// its own stack, so that a deeply nested condition cannot overflow the
    /// call stack.
    pub fn evaluate(&self, state: &State) -> (r: bool)
        ensures
            r == self.holds(state@),
    {
        let ghost tags = state@;
        let mut stack: Vec<Frame> = Vec::new();
        let mut cur: &Conditional = self;
        loop
            invariant
                frames_ok(stack@),
                self.holds(tags) == plug(stack@, cur.holds(tags), tags),
                tags == state@,
            decreases cur.size() + pending(stack@),
        {
            let ghost p0 = pending(stack@);
            let ghost m0 = cur.size() + p0;
            let mut val: bool;
            match cur {
                Conditional::Always => {
                    val = true;
                },
                Conditional::TagSet { contents } => {
                    val = state.contains_key(contents);
                },
                Conditional::TagUnset { contents } => {
                    val = !state.contains_key(contents);
                },
                Conditional::TLNot { contents } => {
                    let ghost old_stack = stack@;
                    stack.push(Frame::Not);
                    assert(stack@.drop_last() == old_stack);
                    cur = contents;
                    continue ;
                },
                Conditional::TLAnd { contents } => {
                    if contents.len() == 0 {
                        assert(cur.holds(tags) == all_from(contents@, 0, tags));
                        val = true;
                    } else {
                        let ghost old_stack = stack@;
                        proof {
                            lemma_size_from_split(contents@, 0);
                        }
                        stack.push(Frame::All { items: contents, index: 0 });
                        assert(stack@.drop_last() == old_stack);
                        assert(cur.holds(tags) == all_from(contents@, 0, tags));
                        assert(cur.holds(tags) == (contents@[0].holds(tags) && all_from(
                            contents@,
                            1,
                            tags,
                        )));
                        cur = &contents[0];
                        continue ;
                    }
                },
                Conditional::TLOr { contents } => {
                    if contents.len() == 0 {
                        assert(cur.holds(tags) == any_from(contents@, 0, tags));
                        val = false;
                    } else {
                        let ghost old_stack = stack@;
                        proof {
                            lemma_size_from_split(contents@, 0);
                        }
                        stack.push(Frame::Any { items: contents, index: 0 });
                        assert(stack@.drop_last() == old_stack);
                        assert(cur.holds(tags) == any_from(contents@, 0, tags));
                        assert(cur.holds(tags) == (contents@[0].holds(tags) || any_from(
                            contents@,
                            1,
                            tags,
                        )));
                        cur = &contents[0];
                        continue ;
                    }
                },
            }
            assert(m0 >= 1 + p0);
            loop
                invariant_except_break
                    frames_ok(stack@),
                    self.holds(tags) == plug(stack@, val, tags),
                    pending(stack@) <= p0,
                    m0 >= 1 + p0,
                    tags == state@,
                ensures
                    frames_ok(stack@),
                    self.holds(tags) == plug(stack@, cur.holds(tags), tags),
                    cur.size() + pending(stack@) < m0,
                    tags == state@,
                decreases stack@.len(),
            {
                let ghost old_stack = stack@;
                let top = stack.pop();
                proof {
                    if old_stack.len() > 0 {
                        assert(top == Some(old_stack.last()));
                        assert(frame_ok(old_stack[old_stack.len() - 1]));
                        assert(stack@ == old_stack.drop_last());
                        assert(frames_ok(stack@));
                    }
                }
                match top {
                    None => {
                        return val;
                    },
                    Some(Frame::Not) => {
                        val = !val;
                    },
                    Some(Frame::All { items, index }) => {
                        if val && index < items.len() - 1 {
                            let next = index + 1;
                            proof {
                                lemma_size_from_split(items@, next as int);
                                assert(pending(old_stack) == pending(old_stack.drop_last())
                                    + size_from(items@, index + 1));
                            }
                            stack.push(Frame::All { items, index: next });
                            assert(stack@.drop_last() == old_stack.drop_last());
                            assert(all_from(items@, index + 1, tags) == (items@[next as int].holds(
                                tags,
                            ) && all_from(items@, next + 1, tags)));
                            cur = &items[next];
                            assert(pending(stack@) == pending(old_stack.drop_last()) + size_from(
                                items@,
                                next + 1,
                            ));
                            break ;
                        }
                    },
                    Some(Frame::Any { items, index }) => {
                        if !val && index < items.len() - 1 {
                            let next = index + 1;
                            proof {
                                lemma_size_from_split(items@, next as int);
                                assert(pending(old_stack) == pending(old_stack.drop_last())
                                    + size_from(items@, index + 1));
                            }
                            stack.push(Frame::Any { items, index: next });
                            assert(stack@.drop_last() == old_stack.drop_last());
                            assert(any_from(items@, index + 1, tags) == (items@[next as int].holds(
                                tags,
                            ) || any_from(items@, next + 1, tags)));
                            cur = &items[next];
                            assert(pending(stack@) == pending(old_stack.drop_last()) + size_from(
                                items@,
                                next + 1,
                            ));
                            break ;
                        }
                    },
                }
            }
        }
    }
}

impl Conditional {
    /// Whether the two conditions have the same shape and the same tags.
    pub open spec fn same(&self, other: &Conditional) -> bool
        decreases self, 0int,
    {
        match (self, other) {
            (Conditional::Always, Conditional::Always) => true,
            (Conditional::TagSet { contents: a }, Conditional::TagSet { contents: b }) => a@ == b@,
            (Conditional::TagUnset { contents: a }, Conditional::TagUnset { contents: b }) => a@ == b@,
            (Conditional::TLNot { contents: a }, Conditional::TLNot { contents: b }) => a.same(b),
            (Conditional::TLAnd { contents: a }, Conditional::TLAnd { contents: b }) => a@.len()
                == b@.len() && same_from(a@, b@, 0),
            (Conditional::TLOr { contents: a }, Conditional::TLOr { contents: b }) => a@.len()
                == b@.len() && same_from(a@, b@, 0),
            _ => false,
        }
    }
}

/// Whether each condition of `a` from index `from` on is the same as the one of `b`
/// at its index.
pub open spec fn same_from(a: Seq<Conditional>, b: Seq<Conditional>, from: int) -> bool
    decreases a, a.len() - from,
{
    if 0 <= from < a.len() {
        from < b.len() && a[from].same(&b[from]) && same_from(a, b, from + 1)
    } else {
        true
    }
}

proof fn lemma_same_from_at(a: Seq<Conditional>, b: Seq<Conditional>, from: int, j: int)
    requires
        same_from(a, b, from),
        0 <= from <= j < a.len(),
    ensures
        j < b.len() && a[j].same(&b[j]),
    decreases j - from,
{
    if from < j {
        lemma_same_from_at(a, b, from + 1, j);
    }
}

fn same_conditions(a: &Vec<Conditional>, b: &Vec<Conditional>) -> (r: bool)
    ensures
        r == (a@.len() == b@.len() && same_from(a@, b@, 0)),
    decreases a, 1int,
{
    if a.len() != b.len() {
        return false;
    }
    let mut i: usize = a.len();
    while i > 0
        invariant
            i <= a@.len(),
            a@.len() == b@.len(),
            same_from(a@, b@, i as int),
        decreases i,
    {
        assert(decreases_to!(a => a@[i - 1]));
        if !same_conditional(&a[i - 1], &b[i - 1]) {
            proof {
                if same_from(a@, b@, 0) {
                    lemma_same_from_at(a@, b@, 0, i - 1);
                }
            }
            return false;
        }
        i = i - 1;
    }
    true
}

fn same_conditional(a: &Conditional, b: &Conditional) -> (r: bool)
    ensures
        r == a.same(b),
    decreases a, 0int,
{
    match (a, b) {
        (Conditional::Always, Conditional::Always) => true,
        (Conditional::TagSet { contents: x }, Conditional::TagSet { contents: y }) => *x == *y,
        (Conditional::TagUnset { contents: x }, Conditional::TagUnset { contents: y }) => *x == *y,
        (Conditional::TLNot { contents: x }, Conditional::TLNot { contents: y }) => same_conditional(x, y),
        (Conditional::TLAnd { contents: x }, Conditional::TLAnd { contents: y }) => same_conditions(x, y),
        (Conditional::TLOr { contents: x }, Conditional::TLOr { contents: y }) => same_conditions(x, y),
        _ => false,
    }
}

impl PartialEq for Conditional {
    fn eq(&self, other: &Conditional) -> (r: bool) {
        same_conditional(self, other)
    }
}

impl vstd::std_specs::cmp::PartialEqSpecImpl for Conditional {
    open spec fn obeys_eq_spec() -> bool {
        true
    }

    open spec fn eq_spec(&self, other: &Conditional) -> bool {
        self.same(other)
    }
}

} // verus!
