//! Traversal of the engine's intrusive lists.
//!
//! Enumeration results come back from the engine as intrusive linked lists:
//! each record embeds a link to the next record, and a distinguished
//! sentinel ends the walk.  The caller owns none of the nodes and must walk
//! the links without freeing anything and without running past the
//! sentinel.  Two shapes must be told apart at every call site: a missing
//! list (the engine reported a failure) and a present but empty list (a
//! valid zero-length result).  The first is an `Option::None` at the call
//! site; this module only ever represents the second.
//!
//! Here a list is an arena of nodes addressed by index.  A link is the
//! index of the next node, and the arena's length serves as the sentinel.
//! Every link of a well-formed list points strictly forward, which is what
//! makes every walk finite; a cursor follows the links from the head and
//! yields one payload at a time until it reaches the sentinel.

use vstd::prelude::*;

verus! {

/// One record of an intrusive list: a payload and the embedded link.
struct ListNode<T> {
    payload: Option<T>,
    next: usize,
}

/// An intrusive linked collection, as handed back by an enumeration call:
/// an arena of linked records plus the index of the first record.
///
/// The view of a list is the sequence of payloads in link order.
pub struct IntrusiveList<T> {
    nodes: Vec<ListNode<T>>,
    first: usize,
}

/// The payloads reachable from `at` by following links, in order.
///
/// The walk stops at the sentinel (the arena's length); a link that does
/// not point strictly forward ends the walk as well, so the sequence is
/// well defined for every arena.
spec fn chain<T>(nodes: Seq<ListNode<T>>, at: int) -> Seq<T>
    decreases nodes.len() - at,
    when 0 <= at <= nodes.len()
{
    if at >= nodes.len() {
        Seq::empty()
    } else {
        let head = seq![nodes[at].payload.unwrap()];
        let nxt = nodes[at].next as int;
        if at < nxt <= nodes.len() {
            head + chain(nodes, nxt)
        } else {
            head
        }
    }
}

/// Every node from `at` on carries a payload and a strictly forward link.
spec fn wf_from<T>(nodes: Seq<ListNode<T>>, at: int) -> bool {
    forall|i: int|
        at <= i < nodes.len() ==> i < (#[trigger] nodes[i].next as int) <= nodes.len()
            && nodes[i].payload is Some
}

/// The walk only reads nodes at or after its position, so two arenas that
/// agree from `at` on have the same chain from `at`.
proof fn lemma_chain_agree<T>(n1: Seq<ListNode<T>>, n2: Seq<ListNode<T>>, at: int)
    requires
        n1.len() == n2.len(),
        0 <= at <= n1.len(),
        forall|i: int| at <= i < n1.len() ==> n1[i] == n2[i],
    ensures
        chain(n1, at) == chain(n2, at),
    decreases n1.len() - at,
{
    if at < n1.len() {
        let nxt = n1[at].next as int;
        if at < nxt <= n1.len() {
            lemma_chain_agree(n1, n2, nxt);
        }
    }
}

/// Appending a node whose link is the new sentinel extends every chain that
/// ran to the old sentinel by that node's payload.
proof fn lemma_chain_append<T>(nodes: Seq<ListNode<T>>, node: ListNode<T>, at: int)
    requires
        0 <= at <= nodes.len(),
        wf_from(nodes, at),
        node.payload is Some,
        node.next == nodes.len() + 1,
    ensures
        chain(nodes.push(node), at) == chain(nodes, at).push(node.payload.unwrap()),
    decreases nodes.len() - at,
{
    let grown = nodes.push(node);
    if at == nodes.len() {
        assert(chain(nodes, at) == Seq::<T>::empty());
        assert(chain(grown, at + 1) =~= Seq::<T>::empty());
        assert(chain(grown, at) =~= chain(nodes, at).push(node.payload.unwrap()));
    } else {
        let nxt = nodes[at].next as int;
        lemma_chain_append(nodes, node, nxt);
        assert(chain(grown, at) =~= chain(nodes, at).push(node.payload.unwrap()));
    }
}

impl<T> View for IntrusiveList<T> {
    type V = Seq<T>;

    closed spec fn view(&self) -> Seq<T> {
        chain(self.nodes@, self.first as int)
    }
}

impl<T> IntrusiveList<T> {
    /// Every link points strictly forward and every payload is present.
    pub closed spec fn wf(self) -> bool {
        self.first <= self.nodes.len() && wf_from(self.nodes@, 0)
    }

    /// A present but empty list: a valid zero-length enumeration result,
    /// not to be confused with a missing list.
    pub fn new() -> (r: IntrusiveList<T>)
        ensures
            r.wf(),
            r@ == Seq::<T>::empty(),
    {
        IntrusiveList { nodes: Vec::new(), first: 0 }
    }

    /// Append one record at the tail of the walk.
    fn push(&mut self, value: T)
        requires
            old(self).wf(),
            old(self).nodes@.len() < usize::MAX,
        ensures
            final(self).nodes@.len() == old(self).nodes@.len() + 1,
            final(self).wf(),
            final(self)@ == old(self)@.push(value),
    {
        let node = ListNode { payload: Some(value), next: self.nodes.len() + 1 };
        proof {
            lemma_chain_append(self.nodes@, node, self.first as int);
        }
        self.nodes.push(node);
    }

    /// Build a list that yields exactly the given entries, in order.
    pub fn from_entries(mut entries: Vec<T>) -> (r: IntrusiveList<T>)
        ensures
            r.wf(),
            r@ == entries@,
    {
        let ghost all = entries@;
        let total = entries.len();
        proof {
            assert(all.len() == total);
        }
        let mut list = IntrusiveList { nodes: Vec::new(), first: 0 };
        assert(list@ =~= Seq::<T>::empty());
        while entries.len() > 0
            invariant
                list.wf(),
                all == list@ + entries@,
                list.nodes@.len() == list@.len(),
                list@.len() + entries@.len() == all.len(),
                all.len() <= usize::MAX,
            decreases entries.len(),
        {
            let ghost done = list@;
            let ghost rest = entries@;
            let value = entries.remove(0);
            list.push(value);
            proof {
                assert(list@ + entries@ =~= done + rest);
            }
        }
        assert(list@ =~= all);
        list
    }

    /// A cursor positioned at the head of this list.
    pub fn cursor(&self) -> (r: ListCursor<'_, T>)
        requires
            self.wf(),
        ensures
            r.wf(),
            r.remaining() == self@,
    {
        ListCursor { list: self, at: self.first }
    }

    /// Walk the whole list once and hand out its payloads, in link order.
    ///
    /// The list is consumed; the engine-owned records it stands for are
    /// never freed by the walk itself.
    pub fn into_entries(self) -> (r: Vec<T>)
        requires
            self.wf(),
        ensures
            r@ == self@,
    {
        let ghost all = self@;
        let mut nodes = self.nodes;
        let n = nodes.len();
        let mut at = self.first;
        let mut out: Vec<T> = Vec::new();
        while at < n
            invariant
                n == nodes.len(),
                at <= n,
                wf_from(nodes@, at as int),
                all == out@ + chain(nodes@, at as int),
            decreases n - at,
        {
            let ghost before = nodes@;
            let mut taken = ListNode { payload: None, next: 0 };
            nodes.set_and_swap(at, &mut taken);
            let value = taken.payload.unwrap();
            proof {
                lemma_chain_agree(before, nodes@, taken.next as int);
            }
            out.push(value);
            at = taken.next;
        }
        assert(out@ =~= all);
        out
    }
}

/// A single-pass cursor over an [`IntrusiveList`]: repeatedly asks for the
/// next record until the sentinel is reached, never freeing a node and
/// never stepping past the terminal check.
pub struct ListCursor<'a, T> {
    list: &'a IntrusiveList<T>,
    at: usize,
}

impl<'a, T> ListCursor<'a, T> {
    /// The cursor sits at a sound position of a well-formed list.
    pub closed spec fn wf(self) -> bool {
        self.at <= self.list.nodes.len() && wf_from(self.list.nodes@, 0)
    }

    /// The payloads the cursor has not yet yielded, in link order.
    pub closed spec fn remaining(self) -> Seq<T> {
        chain(self.list.nodes@, self.at as int)
    }

    /// Yield the next payload, or `None` once the sentinel is reached.
    pub fn next(&mut self) -> (r: Option<&'a T>)
        requires
            old(self).wf(),
        ensures
            final(self).wf(),
            match r {
                Option::None => old(self).remaining() == Seq::<T>::empty() && final(self)
                    .remaining() == Seq::<T>::empty(),
                Option::Some(value) => old(self).remaining() == seq![*value] + final(self)
                    .remaining() && final(self).remaining().len() < old(self).remaining().len(),
            },
    {
        let list = self.list;
        if self.at >= list.nodes.len() {
            None
        } else {
            let node = &list.nodes[self.at];
            let value = node.payload.as_ref().unwrap();
            self.at = node.next;
            Some(value)
        }
    }
}

} // verus!
