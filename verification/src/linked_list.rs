use vstd::prelude::*;

verus! {

/// Position of the occurrence of `v` nearest the head (the end of `s`), or
/// `-1` when `v` does not occur.
pub open spec fn top_index_of(s: Seq<usize>, v: usize) -> int
    decreases s.len(),
{
    if s.len() == 0 {
        -1
    } else if s.last() == v {
        s.len() - 1
    } else {
        top_index_of(s.drop_last(), v)
    }
}

pub proof fn lemma_top_index_of(s: Seq<usize>, v: usize)
    ensures
        -1 <= top_index_of(s, v) < s.len(),
        top_index_of(s, v) >= 0 ==> s[top_index_of(s, v)] == v,
        forall|k: int| top_index_of(s, v) < k < s.len() ==> s[k] != v,
    decreases s.len(),
{
    if s.len() > 0 && s.last() != v {
        let t = s.drop_last();
        lemma_top_index_of(t, v);
        assert forall|k: int| top_index_of(s, v) < k < s.len() implies s[k] != v by {
            if k < s.len() - 1 {
                assert(s[k] == t[k]);
            }
        }
    }
}

/// Stack of free block addresses; the most recently pushed address is the
/// head of the list.
pub struct LinkedList {
    items: Vec<usize>,
}

/// A position in a [`LinkedList`] together with the address stored there.
pub struct ListNode {
    position: usize,
    curr: usize,
}

impl ListNode {
    pub closed spec fn position(self) -> int {
        self.position as int
    }

    pub closed spec fn address(self) -> usize {
        self.curr
    }

    /// The address held by this node.
    pub fn value(&self) -> (r: usize)
        ensures
            r == self.address(),
    {
        self.curr
    }

    /// Unlinks this node from `list` and returns its address.
    pub fn pop(self, list: &mut LinkedList) -> (r: usize)
        requires
            0 <= self.position() < old(list)@.len(),
            old(list)@[self.position()] == self.address(),
        ensures
            r == self.address(),
            final(list)@ == old(list)@.remove(self.position()),
    {
        list.items.remove(self.position);
        self.curr
    }
}

impl LinkedList {
    /// Addresses in push order; the last one is the head.
    pub closed spec fn view(&self) -> Seq<usize> {
        self.items@
    }

    pub fn new() -> (r: Self)
        ensures
            r@ == Seq::<usize>::empty(),
    {
        LinkedList { items: Vec::new() }
    }

    pub fn is_empty(&self) -> (r: bool)
        ensures
            r == (self@.len() == 0),
    {
        self.items.len() == 0
    }

    /// Makes `value` the new head.
    pub fn push(&mut self, value: usize)
        ensures
            final(self)@ == old(self)@.push(value),
    {
        self.items.push(value);
    }

    /// Removes and returns the head.
    pub fn pop(&mut self) -> (r: Option<usize>)
        ensures
            old(self)@.len() == 0 ==> r is None && final(self)@ == old(self)@,
            old(self)@.len() > 0 ==> r == Some(old(self)@.last()) && final(self)@ == old(
                self,
            )@.drop_last(),
    {
        self.items.pop()
    }

    /// The addresses from the head to the tail.
    pub fn iter(&self) -> (r: LinkedListIter)
        ensures
            r.remaining() == self@.reverse(),
    {
        let n = self.items.len();
        let mut out: Vec<usize> = Vec::new();
        let mut i: usize = 0;
        while i < n
            invariant
                n == self@.len(),
                i <= n,
                out@.len() == i,
                forall|k: int| 0 <= k < i ==> out@[k] == self@[n - 1 - k],
            decreases n - i,
        {
            out.push(self.items[n - 1 - i]);
            i = i + 1;
        }
        assert(out@ =~= self@.reverse());
        assert(out@.skip(0) =~= out@);
        LinkedListIter { items: out, next_index: 0 }
    }

    /// Nodes from the head to the tail, each of which can unlink itself.
    pub fn iter_mut(&self) -> (r: LinkedListIterMut)
        ensures
            r.remaining().len() == self@.len(),
            forall|k: int|
                #![trigger r.remaining()[k]]
                0 <= k < r.remaining().len() ==> r.remaining()[k].position() == self@.len() - 1 - k
                    && r.remaining()[k].address() == self@[self@.len() - 1 - k],
    {
        let n = self.items.len();
        let mut out: Vec<ListNode> = Vec::new();
        let mut i: usize = 0;
        while i < n
            invariant
                n == self@.len(),
                i <= n,
                out@.len() == i,
                forall|k: int|
                    #![trigger out@[k]]
                    0 <= k < i ==> out@[k].position() == n - 1 - k && out@[k].address()
                        == self@[n - 1 - k],
            decreases n - i,
        {
            out.push(ListNode { position: n - 1 - i, curr: self.items[n - 1 - i] });
            i = i + 1;
        }
        assert(out@.skip(0) =~= out@);
        LinkedListIterMut { nodes: out, next_index: 0 }
    }

    /// Unlinks the occurrence of `value` nearest the head, if any, and says
    /// whether there was one.
    pub fn remove_first(&mut self, value: usize) -> (found: bool)
        ensures
            found == (top_index_of(old(self)@, value) >= 0),
            found ==> final(self)@ == old(self)@.remove(top_index_of(old(self)@, value)),
            !found ==> final(self)@ == old(self)@,
    {
        proof {
            lemma_top_index_of(self@, value);
        }
        let n = self.items.len();
        let mut i: usize = n;
        while i > 0
            invariant
                i <= n,
                n == self@.len(),
                self@ == old(self)@,
                forall|k: int| i <= k < n ==> self@[k] != value,
                top_index_of(self@, value) < i,
                -1 <= top_index_of(self@, value),
                top_index_of(self@, value) >= 0 ==> self@[top_index_of(self@, value)] == value,
                forall|k: int| top_index_of(self@, value) < k < n ==> self@[k] != value,
            decreases i,
        {
            if self.items[i - 1] == value {
                assert(top_index_of(self@, value) == i - 1);
                self.items.remove(i - 1);
                return true;
            }
            i = i - 1;
        }
        false
    }
}


/// A walk over the addresses of a list, from the head to the tail.
pub struct LinkedListIter {
    items: Vec<usize>,
    next_index: usize,
}

impl LinkedListIter {
    #[verifier::type_invariant]
    spec fn inv(self) -> bool {
        self.next_index <= self.items@.len()
    }

    /// The addresses not yet returned, in order.
    pub closed spec fn remaining(&self) -> Seq<usize> {
        self.items@.skip(self.next_index as int)
    }

    /// The next address, if any.
    pub fn next(&mut self) -> (r: Option<usize>)
        ensures
            old(self).remaining().len() == 0 ==> r is None
                && final(self).remaining() == old(self).remaining(),
            old(self).remaining().len() > 0 ==> r == Some(old(self).remaining()[0])
                && final(self).remaining() == old(self).remaining().drop_first(),
    {
        proof {
            use_type_invariant(&*self);
        }
        if self.next_index < self.items.len() {
            let v = self.items[self.next_index];
            self.next_index = self.next_index + 1;
            proof {
                assert(self.remaining() =~= old(self).remaining().drop_first());
            }
            Some(v)
        } else {
            None
        }
    }
}

/// A walk over the nodes of a list, from the head to the tail.
pub struct LinkedListIterMut {
    nodes: Vec<ListNode>,
    next_index: usize,
}

impl LinkedListIterMut {
    #[verifier::type_invariant]
    spec fn inv(self) -> bool {
        self.next_index <= self.nodes@.len()
    }

    /// The nodes not yet returned, in order.
    pub closed spec fn remaining(&self) -> Seq<ListNode> {
        self.nodes@.skip(self.next_index as int)
    }

    /// The next node, if any.
    pub fn next(&mut self) -> (r: Option<ListNode>)
        ensures
            old(self).remaining().len() == 0 ==> r is None
                && final(self).remaining() == old(self).remaining(),
            old(self).remaining().len() > 0 ==> r == Some(old(self).remaining()[0])
                && final(self).remaining() == old(self).remaining().drop_first(),
    {
        proof {
            use_type_invariant(&*self);
        }
        if self.next_index < self.nodes.len() {
            let v = ListNode {
                position: self.nodes[self.next_index].position,
                curr: self.nodes[self.next_index].curr,
            };
            self.next_index = self.next_index + 1;
            proof {
                assert(self.remaining() =~= old(self).remaining().drop_first());
            }
            Some(v)
        } else {
            None
        }
    }
}

} // verus!
