//! The LIFO container at the heart of the page-cache core: an owned chain
//! of heap nodes whose top is named by a stable numeric token. The token
//! plays the part an atomic head pointer plays in an intrusive lock-free
//! stack, and `compare_and_push` is the compare-and-swap against it. Every
//! push draws a fresh token from a 64-bit counter, so within any feasible
//! lifetime of the structure a stale snapshot cannot falsely match a newer
//! head: the token scheme sidesteps the ABA hazard that a raw-pointer head,
//! whose addresses an allocator may hand out again, has to accept or guard
//! against.

use vstd::prelude::*;
use vstd::string::StringExecFns;

use crate::render::{comma_join, lemma_comma_join_push};

verus! {

/// One link of the chain: a payload and the rest of the chain below it,
/// tagged with the token that identifies this node to `compare_and_push`.
pub struct Node<T> {
    inner: T,
    id: u64,
    next: Option<Box<Node<T>>>,
}

/// The payloads hanging from `o`, top first.
pub closed spec fn chain<T>(o: Option<Box<Node<T>>>) -> Seq<T>
    decreases o,
{
    match o {
        None => Seq::empty(),
        Some(n) => seq![n.inner] + chain(n.next),
    }
}

/// A LIFO stack of `T`. Created empty; its whole observable state is the
/// sequence of payloads from the top down (`self@`) together with the
/// identity token of the top node (`self.head_id()`).
///
/// Every node still linked at teardown is released exactly once by
/// ownership of the chain. That compiler-generated release walks the chain
/// by recursion, one frame per node, so a stack deep enough to exhaust the
/// call stack should be emptied first through `clear` or `pop_all`, which
/// free the chain iteratively.
pub struct Stack<T> {
    head: Option<Box<Node<T>>>,
    next_id: u64,
}

impl<T> View for Stack<T> {
    type V = Seq<T>;

    closed spec fn view(&self) -> Seq<T> {
        chain(self.head)
    }
}

impl<T> Node<T> {
    /// The payloads of this node and of everything below it, top first.
    pub closed spec fn below(self) -> Seq<T> {
        seq![self.inner] + chain(self.next)
    }

    /// The node one step down the chain, if any.
    pub fn next(&self) -> (r: Option<&Node<T>>)
        ensures
            r is Some <==> self.below().len() > 1,
            r matches Some(m) ==> m.below() == self.below().drop_first(),
    {
        proof {
            assert(self.below().drop_first() =~= chain(self.next));
        }
        match &self.next {
            None => None,
            Some(b) => Some(&**b),
        }
    }

    /// The payload held by this node; it stands first in `below()`.
    pub fn inner(&self) -> (r: &T)
        ensures
            *r == self.below()[0],
    {
        &self.inner
    }
}

impl<T> Default for Stack<T> {
    /// A stack with nothing on it.
    fn default() -> (s: Stack<T>)
        ensures
            s@ == Seq::<T>::empty(),
            s.head_id() is None,
    {
        Stack { head: None, next_id: 0 }
    }
}

impl<T> Stack<T> {
    /// The identity token of the current top node; `None` when the stack is
    /// empty.
    pub closed spec fn head_id(&self) -> Option<u64> {
        match self.head {
            None => None,
            Some(n) => Some(n.id),
        }
    }

    /// The head token is `None` exactly on the empty stack.
    pub proof fn lemma_head_id_none_iff_empty(&self)
        ensures
            self.head_id() is None <==> self@.len() == 0,
    {
    }

    /// Puts `value` on top of the stack, unconditionally.
    pub fn push(&mut self, value: T)
        ensures
            final(self)@ == seq![value] + old(self)@,
            final(self).head_id() is Some,
    {
        let next = self.head.take();
        let id: u64 = self.next_id;
        self.next_id = self.next_id.wrapping_add(1);
        self.head = Some(Box::new(Node { inner: value, id, next }));
    }

    /// Takes the top value, in one attempt. An empty stack reports
    /// `Ok(None)` and is left as it was; otherwise the top payload comes
    /// back and the head moves to its successor. The conflict arm `Err(())`
    /// exists for callers composing their own retry loops around a shared
    /// stack; with exclusive access the attempt always lands, so it is never
    /// returned here.
    pub fn try_pop(&mut self) -> (r: Result<Option<T>, ()>)
        ensures
            old(self)@.len() == 0 ==> r == Ok::<Option<T>, ()>(None) && final(self)@ == old(self)@,
            old(self)@.len() > 0 ==> r == Ok::<Option<T>, ()>(Some(old(self)@[0]))
                && final(self)@ == old(self)@.drop_first(),
    {
        proof {
            if old(self)@.len() > 0 {
                assert(old(self)@.drop_first() =~= chain(old(self).head.unwrap().next));
            }
        }
        match self.head.take() {
            None => Ok(None),
            Some(node) => {
                let n = *node;
                self.head = n.next;
                Ok(Some(n.inner))
            },
        }
    }

    /// Detaches the whole chain in one exchange of the head for "empty",
    /// then walks it: every value the stack held comes back, most recently
    /// pushed first, and the stack is left empty. A push that happens after
    /// the exchange lands on the new, empty head and is not touched.
    pub fn pop_all(&mut self) -> (r: Vec<T>)
        ensures
            r@ == old(self)@,
            final(self)@ == Seq::<T>::empty(),
            final(self).head_id() is None,
    {
        let ghost orig: Seq<T> = self@;
        let mut res: Vec<T> = Vec::new();
        let mut cur = self.head.take();
        while cur.is_some()
            invariant
                res@ + chain(cur) == orig,
            decreases chain(cur).len(),
        {
            let node = cur.unwrap();
            let n = *node;
            proof {
                assert(res@.push(n.inner) + chain(n.next) =~= res@ + chain(cur));
            }
            res.push(n.inner);
            cur = n.next;
        }
        proof {
            assert(res@ =~= orig);
        }
        res
    }

    /// Releases every node on the stack, iteratively, one node per step:
    /// the teardown path for stacks deep enough that the recursive release
    /// of the owned chain could exhaust the call stack.
    pub fn clear(&mut self)
        ensures
            final(self)@ == Seq::<T>::empty(),
            final(self).head_id() is None,
    {
        let mut cur = self.head.take();
        while cur.is_some()
            decreases chain(cur).len(),
        {
            let node = cur.unwrap();
            let n = *node;
            cur = n.next;
        }
    }

    /// The building block for optimistic updates: wraps `value` in a new
    /// node whose successor is the head that `expected` names, and installs
    /// it only if the head still equals `expected` — succeeds if and only if
    /// it does. On a mismatch the actual head token comes back for the
    /// caller to recompute and retry, and the stack is left untouched; the
    /// node built for the attempt is discarded, never left dangling.
    pub fn compare_and_push(&mut self, expected: Option<u64>, value: T) -> (r: Result<
        (),
        Option<u64>,
    >)
        ensures
            r is Ok <==> expected == old(self).head_id(),
            r is Ok ==> final(self)@ == seq![value] + old(self)@ && final(self).head_id() is Some,
            r matches Err(actual) ==> actual == old(self).head_id() && actual != expected
                && *final(self) == *old(self),
    {
        let current = self.head();
        let same = match (current, expected) {
            (None, None) => true,
            (Some(a), Some(b)) => a == b,
            _ => false,
        };
        if same {
            self.push(value);
            Ok(())
        } else {
            Err(current)
        }
    }

    /// A point-in-time snapshot of the head token, usable as the `expected`
    /// argument of a later `compare_and_push`.
    pub fn head(&self) -> (r: Option<u64>)
        ensures
            r == self.head_id(),
    {
        match &self.head {
            None => None,
            Some(n) => Some(n.id),
        }
    }

    /// A borrow of the top node, for walking the chain in place.
    pub fn head_node(&self) -> (r: Option<&Node<T>>)
        ensures
            r is Some <==> self@.len() > 0,
            r matches Some(n) ==> n.below() == self@,
    {
        match &self.head {
            None => None,
            Some(b) => Some(&**b),
        }
    }
}

/// The payloads hanging from the node `c` borrows, top first; the whole
/// view when `c` is a borrow of the head.
pub open spec fn remaining<T>(c: Option<&Node<T>>) -> Seq<T> {
    match c {
        None => Seq::empty(),
        Some(n) => n.below(),
    }
}

/// Joins already rendered parts into the fixed listing frame: the exact text
/// `Stack [` + the parts separated by `", "` + `]`.
pub fn render_frame(parts: &Vec<String>) -> (r: String)
    ensures
        r@ == "Stack ["@ + comma_join(parts@.map_values(|p: String| p@)) + "]"@,
{
    let ghost views: Seq<Seq<char>> = parts@.map_values(|p: String| p@);
    let mut out = String::from_str("Stack [");
    proof {
        assert(views.take(0) =~= Seq::<Seq<char>>::empty());
        assert(out@ =~= "Stack ["@ + comma_join(views.take(0)));
    }
    let mut i: usize = 0;
    while i < parts.len()
        invariant
            i <= parts@.len(),
            views == parts@.map_values(|p: String| p@),
            out@ == "Stack ["@ + comma_join(views.take(i as int)),
        decreases parts@.len() - i,
    {
        if i > 0 {
            out.append(", ");
        }
        out.append(parts[i].as_str());
        proof {
            lemma_comma_join_push(views.take(i as int), views[i as int]);
            assert(views.take(i as int).push(views[i as int]) =~= views.take(i as int + 1));
            if i == 0 {
                assert(out@ =~= "Stack ["@ + comma_join(views.take(i as int + 1)));
            } else {
                assert(("Stack ["@ + comma_join(views.take(i as int))) + ", "@ + views[i as int]
                    =~= "Stack ["@ + (comma_join(views.take(i as int)) + ", "@ + views[i as int]));
                assert(out@ =~= "Stack ["@ + comma_join(views.take(i as int + 1)));
            }
        }
        i = i + 1;
    }
    proof {
        assert(views.take(parts@.len() as int) =~= views);
    }
    out.concat("]")
}

impl<T: core::fmt::Debug> Stack<T> {
    /// Renders the current contents from top to bottom in the shape
    /// `Stack [a, b, c]`, each payload as `core::fmt`'s `Debug` gives it.
    /// One part per held value, inside the fixed frame; the payload texts
    /// themselves are `core::fmt`'s output and stay unnamed.
    pub fn debug_string(&self) -> (r: String)
        ensures
            self@.len() == 0 ==> r@ == "Stack []"@,
            exists|parts: Seq<Seq<char>>|
                parts.len() == self@.len() && r@ == "Stack ["@ + comma_join(parts) + "]"@,
            ("Stack ["@).is_prefix_of(r@),
            r@.len() > 0 && r@.last() == ']',
    {
        let mut parts: Vec<String> = Vec::new();
        let mut cur: Option<&Node<T>> = self.head_node();
        while cur.is_some()
            invariant
                parts@.len() + remaining(cur).len() == self@.len(),
            decreases remaining(cur).len(),
        {
            let n = cur.unwrap();
            parts.push(crate::render::debug_repr(n.inner()));
            cur = n.next();
        }
        let r = render_frame(&parts);
        proof {
            let views = parts@.map_values(|p: String| p@);
            assert(views.len() == self@.len() && r@ == "Stack ["@ + comma_join(views) + "]"@);
            reveal_strlit("Stack [");
            reveal_strlit("Stack []");
            reveal_strlit("]");
            if self@.len() == 0 {
                assert(r@ =~= "Stack []"@);
            }
            assert(("Stack ["@).is_prefix_of(r@)) by {
                assert("Stack ["@ =~= r@.subrange(0, "Stack ["@.len() as int));
            }
            assert(r@.last() == ']');
        }
        r
    }
}

/// The view a stack starting at `v` has after the values of `ps` have been
/// pushed onto it one by one, first element first.
pub open spec fn after_pushes<T>(v: Seq<T>, ps: Seq<T>) -> Seq<T>
    decreases ps.len(),
{
    if ps.len() == 0 {
        v
    } else {
        after_pushes(seq![ps[0]] + v, ps.drop_first())
    }
}

/// Last in, first out: after pushing `a` and then `b` onto a stack whose
/// view was `v`, the next two values taken off the top are `b` and then `a`,
/// and what is left is `v` again.
pub proof fn lemma_lifo_order<T>(v: Seq<T>, a: T, b: T)
    ensures
        (seq![b] + (seq![a] + v))[0] == b,
        (seq![b] + (seq![a] + v)).drop_first() == seq![a] + v,
        (seq![a] + v)[0] == a,
        (seq![a] + v).drop_first() == v,
{
    assert((seq![b] + (seq![a] + v)).drop_first() =~= seq![a] + v);
    assert((seq![a] + v).drop_first() =~= v);
}

/// No value is lost and none is duplicated: whatever order the pushes of
/// `ps` interleave into on top of a stack holding `v`, the stack then holds
/// exactly the values of `v` and of `ps`, each as many times as it went in —
/// so a drain recovers the full pushed multiset.
pub proof fn lemma_pushes_preserve_values<T>(v: Seq<T>, ps: Seq<T>)
    ensures
        after_pushes(v, ps).to_multiset() == v.to_multiset().add(ps.to_multiset()),
    decreases ps.len(),
{
    broadcast use vstd::seq_lib::group_to_multiset_ensures;

    if ps.len() == 0 {
        assert(after_pushes(v, ps).to_multiset() =~= v.to_multiset().add(ps.to_multiset()));
    } else {
        lemma_pushes_preserve_values(seq![ps[0]] + v, ps.drop_first());
        lemma_cons_to_multiset(v, ps[0]);
        lemma_cons_to_multiset(ps.drop_first(), ps[0]);
        assert(seq![ps[0]] + ps.drop_first() =~= ps);
        assert(v.to_multiset().insert(ps[0]).add(ps.drop_first().to_multiset()) =~= v.to_multiset()
            .add(ps.drop_first().to_multiset().insert(ps[0])));
    }
}

/// Putting `x` on the front of `v` adds exactly one occurrence of `x` to the
/// multiset of held values.
pub proof fn lemma_cons_to_multiset<T>(v: Seq<T>, x: T)
    ensures
        (seq![x] + v).to_multiset() == v.to_multiset().insert(x),
    decreases v.len(),
{
    broadcast use vstd::seq_lib::group_to_multiset_ensures;

    assert((seq![x] + v).drop_last() =~= if v.len() == 0 {
        Seq::<T>::empty()
    } else {
        seq![x] + v.drop_last()
    });
    if v.len() == 0 {
        assert((seq![x] + v) =~= Seq::<T>::empty().push(x));
        assert(Seq::<T>::empty().push(x).to_multiset() =~= v.to_multiset().insert(x));
    } else {
        lemma_cons_to_multiset(v.drop_last(), x);
        assert((seq![x] + v) =~= (seq![x] + v.drop_last()).push(v.last()));
        assert(v =~= v.drop_last().push(v.last()));
        assert(v.drop_last().to_multiset().insert(x).insert(v.last()) =~= v.drop_last()
            .to_multiset().insert(v.last()).insert(x));
    }
}

/// Drain atomicity, over the views the contracts speak of: a drain that the
/// push of `x` precedes sees `seq![x] + v` and so includes `x`, exactly once
/// more than `v` did; a drain that precedes the push returns `v` alone,
/// leaves the stack empty, and the push then lands on the empty head, so the
/// stack holds exactly `seq![x]` — never a partial or duplicated view.
pub proof fn lemma_drain_push_atomic<T>(v: Seq<T>, x: T)
    ensures
        (seq![x] + v).to_multiset() == v.to_multiset().insert(x),
        (seq![x] + v)[0] == x,
        seq![x] + Seq::<T>::empty() == seq![x],
{
    lemma_cons_to_multiset(v, x);
    assert(seq![x] + Seq::<T>::empty() =~= seq![x]);
}

} // verus!
