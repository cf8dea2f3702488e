//! Nodes: the growable index from identifiers to slots.
//!
//! A node covers the identifiers from its offset on, as many as it has slots;
//! the node that follows covers the next, and so on. A chain of nodes is
//! extended at its end when an identifier is asked for that it does not cover
//! yet. This can happen while the chain is shared: the place of a node's
//! successor is a cell that is written once, like a [`Slot`].
//!
//! # What is assumed
//!
//! That cell is a `once_cell::sync::OnceCell`. It stands in a [`Link`], beside
//! the values by which contracts speak of it, and four private functions of
//! `Link` call it; their contracts are believed. The cell itself is in a
//! struct of its own, [`Tail`], which is opaque to the verifier: a node that
//! held the cell directly would be a recursive type through a type of another
//! crate. A node is put together, and everything else is proved, in verified
//! code.

use crate::slot::Slot;
use crate::var_cnt::VarCnt;
use once_cell::sync::OnceCell;
use std::marker::PhantomData;
use vstd::prelude::*;

verus! {

/// The least number of slots in a node.
pub const MIN_SLOTS: usize = 256;

/// The number of slots of a node that starts at `offset`, when the domain has
/// issued `count` identifiers and the node is to have `least` slots or more:
/// enough to cover every identifier issued, and never fewer than `least`.
pub open spec fn spec_node_len(count: usize, offset: usize, least: usize) -> usize {
    if count - offset > least {
        (count - offset) as usize
    } else {
        least
    }
}

/// Computes [`spec_node_len`].
pub fn node_len(count: usize, offset: usize, least: usize) -> (len: usize)
    ensures
        len == spec_node_len(count, offset, least),
{
    let rest = count.saturating_sub(offset);
    if rest > least {
        rest
    } else {
        least
    }
}

/// The cell in which a node keeps its successor.
#[verifier::external_body]
#[verifier::reject_recursive_types(CTX)]
#[verifier::reject_recursive_types(T)]
struct Tail<CTX, T> {
    cell: OnceCell<Box<Node<CTX, T>>>,
}

/// The place of a node's successor: a cell that is written once, by the first
/// caller that needs an identifier beyond the node, and what contracts say of
/// it.
///
/// As with a [`Slot`], a contract cannot say whether a shared link is set
/// *now*. It speaks of the two ends of the present stretch of shared access:
/// `linked` says whether the link was set when the stretch began, and `next`
/// is the successor that it has when the stretch ends. A link only takes a
/// node that starts at `start` and has `least` slots or more.
#[verifier::reject_recursive_types(CTX)]
#[verifier::reject_recursive_types(T)]
struct Link<CTX, T> {
    tail: Tail<CTX, T>,
    start: Ghost<nat>,
    least: Ghost<nat>,
    linked: Ghost<bool>,
    next: Ghost<Option<Box<Node<CTX, T>>>>,
}

/// A run of slots for the identifiers from `offset` on, and the node that
/// follows it, if there is one yet.
///
/// A chain of nodes only grows, at its end, and a node never moves: a reference
/// to a slot stays valid for as long as the chain lives.
#[verifier::reject_recursive_types(CTX)]
#[verifier::reject_recursive_types(T)]
pub struct Node<CTX, T> {
    _ctx: PhantomData<CTX>,
    list: Vec<Slot<T>>,
    offset: usize,
    link: Link<CTX, T>,
}

impl<CTX, T> Link<CTX, T> {
    /// What the link takes for a successor: a node that starts at `start`,
    /// has `least` slots or more, is well formed, and in which nothing was
    /// stored.
    spec fn admits(&self, after: &Node<CTX, T>) -> bool {
        &&& after.offset() == self.start@
        &&& after.slots().len() >= self.least@
        &&& after.wf()
        &&& after.fresh()
    }
}

impl<CTX: VarCnt, T> Link<CTX, T> {
    /// Calls `OnceCell::new`: the link is not set. It is for the successor of
    /// a node of `len` slots at `offset`. The only call that sets it while it
    /// is shared is the one in [`Link::get_or_init`], and the node that this
    /// one makes is as [`Link::admits`] says.
    #[verifier::external_body]
    fn unset(offset: usize, len: usize) -> (link: Self)
        ensures
            link.start@ == offset + len,
            link.least@ == len,
            !link.linked@,
            link.next@ matches Some(after) ==> link.admits(&*after),
    {
        Link {
            tail: Tail { cell: OnceCell::new() },
            start: Ghost((offset + len) as nat),
            least: Ghost(len as nat),
            linked: Ghost(false),
            next: Ghost(arbitrary()),
        }
    }

    /// Calls `OnceCell::get`. A successor that is found is the one that the
    /// link keeps while it is shared, and a link that was set when the stretch
    /// of shared access began is found set. Otherwise `None` says that the
    /// link was not set yet at the time of the call.
    #[verifier::external_body]
    fn get(&self) -> (r: Option<&Box<Node<CTX, T>>>)
        ensures
            r matches Some(after) ==> self.next@ == Some(*after),
            self.linked@ ==> r is Some,
    {
        self.tail.cell.get()
    }

    /// Calls `OnceCell::get_or_init`, with a closure that makes the successor
    /// by [`Node::boxed`], for the identifier `start` and with `least` slots
    /// or more: the link is set from now on. Of several callers at a time
    /// only one runs the closure, and all get the same node.
    #[verifier::external_body]
    fn get_or_init(&self, start: usize, least: usize) -> (after: &Box<Node<CTX, T>>)
        requires
            start == self.start@,
            least == self.least@,
            least >= MIN_SLOTS,
        ensures
            self.next@ == Some(*after),
    {
        self.tail.cell.get_or_init(|| Node::boxed(start, least))
    }

    /// Calls `OnceCell::get_mut`. Exclusive access ends the stretch of shared
    /// access, so what the call finds is the successor that the link had at
    /// its end; `None` exactly when the link is not set. Then the next stretch
    /// begins: with the successor as the caller leaves it, or with a link
    /// that is not set, as [`Link::unset`] makes it.
    #[verifier::external_body]
    fn get_mut(&mut self) -> (r: Option<&mut Box<Node<CTX, T>>>)
        ensures
            final(self).start@ == old(self).start@,
            final(self).least@ == old(self).least@,
            match r {
                Some(after) => {
                    &&& old(self).next@ == Some(*after)
                    &&& final(self).next@ == Some(*final(after))
                    &&& final(self).linked@
                },
                None => {
                    &&& old(self).next@ is None
                    &&& !old(self).linked@
                    &&& !final(self).linked@
                    &&& final(self).next@ matches Some(node) ==> final(self).admits(&*node)
                },
            },
    {
        self.tail.cell.get_mut()
    }
}

impl<CTX, T> Node<CTX, T> {
    /// The first identifier that the node covers.
    pub closed spec fn offset(&self) -> nat {
        self.offset as nat
    }

    /// The slots of the node itself.
    pub closed spec fn slots(&self) -> Seq<Slot<T>> {
        self.list@
    }

    /// Whether the node had its successor when the present stretch of shared
    /// access to it began: whether exclusive access left it with one.
    pub closed spec fn linked(&self) -> bool {
        self.link.linked@
    }

    /// The node that follows when the present stretch of shared access ends.
    pub closed spec fn next(&self) -> Option<Node<CTX, T>> {
        match self.link.next@ {
            Some(node) => Some(*node),
            None => None,
        }
    }

    /// The node has [`MIN_SLOTS`] slots or more. Its successors cover the
    /// identifiers behind it without a gap, and none of them has fewer slots
    /// than the node before it. A successor that was not there when the
    /// stretch of shared access began has nothing stored.
    pub closed spec fn wf(&self) -> bool
        decreases self,
    {
        &&& self.list@.len() >= MIN_SLOTS
        &&& self.link.start@ == self.offset() + self.list@.len()
        &&& self.link.least@ == self.list@.len()
        &&& self.link.linked@ ==> self.link.next@ is Some
        &&& match self.link.next@ {
            Some(node) => {
                &&& node.offset() == self.offset() + self.list@.len()
                &&& node.list@.len() >= self.list@.len()
                &&& node.wf()
                &&& self.link.linked@ || node.fresh()
            },
            None => true,
        }
    }

    /// No value was stored in the node or behind it under exclusive access:
    /// what a chain is like when it is made.
    pub closed spec fn fresh(&self) -> bool
        decreases self,
    {
        &&& forall|i: int| 0 <= i < self.list@.len() ==> (#[trigger] self.list@[i]).stored() is None
        &&& match self.link.next@ {
            Some(node) => node.fresh(),
            None => true,
        }
    }

    /// The slot of the identifier `index`, in this node or in one that follows.
    /// `None` where the chain ends before `index`.
    pub closed spec fn slot_of(&self, index: int) -> Option<Slot<T>>
        decreases self,
    {
        if index < self.offset() {
            None
        } else if index - self.offset() < self.list@.len() {
            Some(self.list@[index - self.offset()])
        } else {
            match self.link.next@ {
                Some(node) => node.slot_of(index),
                None => None,
            }
        }
    }

    /// Whether the chain had a node for `index` when the present stretch of
    /// shared access began: whether `index` is in this node, or in one that
    /// exclusive access left linked behind it.
    pub closed spec fn reaches(&self, index: int) -> bool
        decreases self,
    {
        if index < self.offset() {
            false
        } else if index - self.offset() < self.list@.len() {
            true
        } else {
            match self.link.next@ {
                Some(node) => self.link.linked@ && node.reaches(index),
                None => false,
            }
        }
    }

    /// What was held under `index` when the present stretch of shared access
    /// to its slot began.
    pub open spec fn stored(&self, index: int) -> Option<T> {
        match self.slot_of(index) {
            Some(slot) => slot.stored(),
            None => None,
        }
    }

    /// What is held under `index` when the present stretch of shared access
    /// ends.
    pub open spec fn value(&self, index: int) -> Option<T> {
        match self.slot_of(index) {
            Some(slot) => slot.value(),
            None => None,
        }
    }

    /// The number of the present stretch of shared access to the slot of
    /// `index`.
    pub open spec fn epoch(&self, index: int) -> nat {
        match self.slot_of(index) {
            Some(slot) => slot.epoch(),
            None => 0,
        }
    }

    /// The number of slots of the node itself.
    pub fn len(&self) -> (n: usize)
        ensures
            n == self.slots().len(),
    {
        self.list.len()
    }
}

impl<CTX: VarCnt, T> Node<CTX, T> {
    /// A node on the heap, made by [`Node::sized`] for the count that the
    /// domain's counter shows.
    fn boxed(offset: usize, least: usize) -> (node: Box<Self>)
        requires
            least >= MIN_SLOTS,
        ensures
            node.wf(),
            node.fresh(),
            node.offset() == offset,
            node.slots().len() >= least,
    {
        Box::new(Node::sized(CTX::var_cnt().cur(), offset, least))
    }

    /// A node for the identifiers from `offset` on, with empty slots and no
    /// successor. It has room for every identifier that the domain has issued
    /// so far, and for [`MIN_SLOTS`] at least: it is what [`Node::sized`]
    /// makes for the count that the domain's counter shows.
    pub fn with_offset(offset: usize) -> (node: Self)
        ensures
            node.wf(),
            node.fresh(),
            !node.linked(),
            node.offset() == offset,
    {
        Node::sized(CTX::var_cnt().cur(), offset, MIN_SLOTS)
    }

    /// A node for the identifiers from `offset` on, with empty slots and no
    /// successor, for a domain that has issued `count` identifiers: it has
    /// [`spec_node_len`] slots, which is room for all of them, and for `least`
    /// at least.
    pub fn sized(count: usize, offset: usize, least: usize) -> (node: Self)
        requires
            least >= MIN_SLOTS,
        ensures
            node.wf(),
            node.fresh(),
            !node.linked(),
            node.offset() == offset,
            node.slots().len() == spec_node_len(count, offset, least),
    {
        let len = node_len(count, offset, least);
        let mut list: Vec<Slot<T>> = Vec::with_capacity(len);
        let mut i: usize = 0;
        while i < len
            invariant
                i <= len,
                list@.len() == i,
                forall|k: int| 0 <= k < i ==> (#[trigger] list@[k]).stored() is None,
            decreases len - i,
        {
            list.push(Slot::default());
            i = i + 1;
        }
        Node { _ctx: PhantomData, list, offset, link: Link::unset(offset, len) }
    }

    /// The slot of `index`, if the chain has a node for it at the time of the
    /// call. It has one wherever it had one when the stretch of shared access
    /// began.
    pub fn slot(&self, index: usize) -> (r: Option<&Slot<T>>)
        requires
            self.wf(),
            self.offset() <= index,
        ensures
            r matches Some(slot) ==> self.slot_of(index as int) == Some(*slot),
            index - self.offset() < self.slots().len() ==> r is Some,
            self.reaches(index as int) ==> r is Some,
            self.stored(index as int) is Some ==> r is Some,
        decreases index - self.offset(),
    {
        let local = index - self.offset;
        if local < self.list.len() {
            Some(&self.list[local])
        } else {
            proof {
                self.lemma_stored_is_reached(index as int);
            }
            match self.link.get() {
                Some(after) => after.slot(index),
                None => None,
            }
        }
    }

    /// The slot of `index`. Where the chain ends before `index`, it is
    /// extended, node by node, until it covers `index`. The nodes that are
    /// there stay where they are, and so do their slots.
    pub fn slot_or_init(&self, index: usize) -> (slot: &Slot<T>)
        requires
            self.wf(),
            self.offset() <= index,
        ensures
            self.slot_of(index as int) == Some(*slot),
        decreases index - self.offset(),
    {
        let local = index - self.offset;
        if local < self.list.len() {
            &self.list[local]
        } else {
            self.node_or_init().slot_or_init(index)
        }
    }

    /// The slot of `index`, for a caller with exclusive access: `None`
    /// exactly when the chain has no node for it. What the caller leaves
    /// behind the reference is what the chain has under `index` afterwards;
    /// every other slot stays as it is.
    pub fn slot_mut(&mut self, index: usize) -> (r: Option<&mut Slot<T>>)
        requires
            old(self).wf(),
            old(self).offset() <= index,
        ensures
            match r {
                Some(slot) => {
                    &&& old(self).slot_of(index as int) == Some(*slot)
                    &&& final(self).slot_of(index as int) == Some(*final(slot))
                    &&& final(self).reaches(index as int)
                    &&& old(self).same_except(final(self), index as int)
                    &&& final(self).wf()
                },
                None => {
                    &&& old(self).slot_of(index as int) is None
                    &&& old(self).grown_into(final(self))
                    &&& final(self).wf()
                },
            },
        decreases index - old(self).offset(),
    {
        let ghost pre = *self;
        let ghost post = *final(self);
        let local = index - self.offset;
        if local < self.list.len() {
            let slot = &mut self.list[local];
            proof {
                pre.lemma_same_except_here(&post, index as int);
            }
            Some(slot)
        } else {
            match self.link.get_mut() {
                Some(after) => {
                    let r = after.slot_mut(index);
                    proof {
                        if r is Some {
                            pre.lemma_same_except_behind(&post, index as int);
                        } else {
                            pre.lemma_grown_into_behind(&post);
                        }
                    }
                    r
                },
                None => {
                    proof {
                        pre.lemma_grown_into_end(&post);
                    }
                    None
                },
            }
        }
    }

    /// The slot of `index`, for a caller with exclusive access. Where the
    /// chain ends before `index`, it is extended until it covers `index`.
    pub fn slot_or_init_mut(&mut self, index: usize) -> (slot: &mut Slot<T>)
        requires
            old(self).wf(),
            old(self).offset() <= index,
        ensures
            old(self).slot_of(index as int) == Some(*slot),
            final(self).slot_of(index as int) == Some(*final(slot)),
            final(self).reaches(index as int),
            old(self).same_except(final(self), index as int),
            final(self).wf(),
        decreases index - old(self).offset(),
    {
        let ghost pre = *self;
        let ghost post = *final(self);
        let local = index - self.offset;
        if local < self.list.len() {
            let slot = &mut self.list[local];
            proof {
                pre.lemma_same_except_here(&post, index as int);
            }
            slot
        } else {
            let slot = self.node_or_init_mut().slot_or_init_mut(index);
            proof {
                pre.lemma_same_except_behind(&post, index as int);
            }
            slot
        }
    }

    /// The successor, for a caller with exclusive access; it is made if there
    /// is none yet.
    fn node_or_init_mut(&mut self) -> (after: &mut Self)
        requires
            old(self).wf(),
            old(self).offset() + old(self).slots().len() <= usize::MAX,
        ensures
            final(self).slots() == old(self).slots(),
            final(self).offset() == old(self).offset(),
            final(self).link.start@ == old(self).link.start@,
            final(self).link.least@ == old(self).link.least@,
            final(self).linked(),
            old(self).next() == Some(*after),
            final(self).next() == Some(*final(after)),
            after.wf(),
    {
        let _ = self.node_or_init();
        match self.link.get_mut() {
            Some(after) => after,
            None => unreached(),
        }
    }

    /// The successor, which is made if there is none yet.
    fn node_or_init(&self) -> (after: &Self)
        requires
            self.wf(),
            self.offset() + self.slots().len() <= usize::MAX,
        ensures
            self.next() == Some(*after),
    {
        match self.link.get() {
            Some(after) => after,
            None => self.link.get_or_init(self.offset + self.list.len(), self.list.len()),
        }
    }
}

impl<CTX, T> Node<CTX, T> {
    /// `post` has the offset, the size and the slots of `self`, but for the
    /// slot of `index`, and a node wherever `self` had one.
    pub open spec fn same_except(&self, post: &Self, index: int) -> bool {
        &&& post.offset() == self.offset()
        &&& post.slots().len() == self.slots().len()
        &&& forall|j: int|
            #![trigger post.slot_of(j)]
            #![trigger self.slot_of(j)]
            j != index ==> post.slot_of(j) == self.slot_of(j)
        &&& forall|j: int|
            #![trigger post.reaches(j)]
            #![trigger self.reaches(j)]
            self.reaches(j) ==> post.reaches(j)
    }

    /// `post` has the offset, the size and the slots of `self`, and behind
    /// them at most slots in which nothing was stored.
    pub open spec fn grown_into(&self, post: &Self) -> bool {
        &&& post.offset() == self.offset()
        &&& post.slots().len() == self.slots().len()
        &&& forall|j: int|
            #![trigger post.slot_of(j)]
            #![trigger self.slot_of(j)]
            match self.slot_of(j) {
                Some(slot) => post.slot_of(j) == Some(slot),
                None => post.stored(j) is None,
            }
        &&& forall|j: int|
            #![trigger post.reaches(j)]
            #![trigger self.reaches(j)]
            self.reaches(j) ==> post.reaches(j)
    }

    /// What it is for a chain to be well formed: a node has [`MIN_SLOTS`]
    /// slots or more; a node that was linked has a successor; a successor
    /// starts where the node ends, has as many slots at least, and is well
    /// formed in turn; and a successor that was not linked when the stretch
    /// of shared access began has nothing stored.
    pub proof fn lemma_wf(&self)
        requires
            self.wf(),
        ensures
            self.slots().len() >= MIN_SLOTS,
            self.linked() ==> self.next() is Some,
            self.next() matches Some(after) ==> {
                &&& after.offset() == self.offset() + self.slots().len()
                &&& after.slots().len() >= self.slots().len()
                &&& after.wf()
                &&& self.linked() || after.fresh()
            },
    {
    }

    /// Where the slot of an identifier is: none before the node, the node's
    /// own within its run of slots, and the successor's behind it.
    pub proof fn lemma_slot_of(&self, index: int)
        ensures
            index < self.offset() ==> self.slot_of(index) is None,
            self.offset() <= index < self.offset() + self.slots().len() ==> self.slot_of(index)
                == Some(self.slots()[index - self.offset()]),
            self.offset() + self.slots().len() <= index ==> self.slot_of(index) == match self.next() {
                Some(after) => after.slot_of(index),
                None => None,
            },
    {
    }

    /// Which identifiers the chain had a node for when the stretch of shared
    /// access began: those of the node itself, and those that a successor
    /// reaches which was linked then. It has a slot for each of them.
    pub proof fn lemma_reaches(&self, index: int)
        ensures
            index < self.offset() ==> !self.reaches(index),
            self.offset() <= index < self.offset() + self.slots().len() ==> self.reaches(index),
            self.offset() + self.slots().len() <= index ==> self.reaches(index) == match self.next() {
                Some(after) => self.linked() && after.reaches(index),
                None => false,
            },
            self.reaches(index) ==> self.slot_of(index) is Some,
        decreases self,
    {
        if let Some(after) = self.next() {
            after.lemma_reaches(index);
        }
    }

    /// Nothing is stored anywhere in a fresh chain.
    pub proof fn lemma_fresh(&self, j: int)
        requires
            self.fresh(),
        ensures
            self.stored(j) is None,
        decreases self,
    {
        if let Some(after) = self.next() {
            after.lemma_fresh(j);
        }
    }

    /// A value is stored only where the chain had a node when the stretch of
    /// shared access began.
    pub proof fn lemma_stored_is_reached(&self, index: int)
        requires
            self.wf(),
        ensures
            self.stored(index) is Some ==> self.reaches(index),
        decreases self,
    {
        if let Some(after) = self.next() {
            after.lemma_stored_is_reached(index);
            if after.fresh() {
                after.lemma_fresh(index);
            }
        }
    }

    /// A value that is stored is the value that is held while the chain is
    /// shared.
    pub proof fn lemma_stored_is_value(&self, index: int)
        ensures
            self.stored(index) is Some ==> self.value(index) == self.stored(index),
    {
        if let Some(slot) = self.slot_of(index) {
            slot.lemma_stored_is_value();
        }
    }

    proof fn lemma_same_except_here(&self, post: &Self, index: int)
        requires
            self.offset() <= index < self.offset() + self.slots().len(),
            post.offset() == self.offset(),
            post.link == self.link,
            post.slots().len() == self.slots().len(),
            forall|i: int|
                0 <= i < self.slots().len() && i != index - self.offset() ==> post.slots()[i]
                    == self.slots()[i],
        ensures
            self.same_except(post, index),
            post.slot_of(index) == Some(post.slots()[index - self.offset()]),
            post.reaches(index),
            self.wf() ==> post.wf(),
    {
        assert forall|j: int| j != index implies #[trigger] post.slot_of(j) == self.slot_of(j) by {}
        assert forall|j: int| self.reaches(j) implies #[trigger] post.reaches(j) by {}
    }

    proof fn lemma_same_except_behind(&self, post: &Self, index: int)
        requires
            self.wf(),
            self.offset() + self.slots().len() <= index,
            post.offset() == self.offset(),
            post.slots() == self.slots(),
            post.link.start@ == self.link.start@,
            post.link.least@ == self.link.least@,
            post.linked(),
            self.next() is Some,
            post.next() is Some,
            self.next().unwrap().same_except(&post.next().unwrap(), index),
            post.next().unwrap().reaches(index),
            post.next().unwrap().wf(),
        ensures
            self.same_except(post, index),
            post.slot_of(index) == post.next().unwrap().slot_of(index),
            self.slot_of(index) == self.next().unwrap().slot_of(index),
            post.reaches(index),
            post.wf(),
    {
        let a0 = self.next().unwrap();
        let a1 = post.next().unwrap();
        assert forall|j: int| j != index implies #[trigger] post.slot_of(j) == self.slot_of(j) by {
            if j >= self.offset() + self.slots().len() {
                assert(post.slot_of(j) == a1.slot_of(j));
                assert(self.slot_of(j) == a0.slot_of(j));
            }
        }
        assert forall|j: int| self.reaches(j) implies #[trigger] post.reaches(j) by {
            if j >= self.offset() + self.slots().len() {
                assert(a0.reaches(j));
                assert(a1.reaches(j));
            }
        }
    }

    proof fn lemma_grown_into_behind(&self, post: &Self)
        requires
            self.wf(),
            post.offset() == self.offset(),
            post.slots() == self.slots(),
            post.link.start@ == self.link.start@,
            post.link.least@ == self.link.least@,
            post.linked(),
            self.next() is Some,
            post.next() is Some,
            self.next().unwrap().grown_into(&post.next().unwrap()),
            post.next().unwrap().wf(),
        ensures
            self.grown_into(post),
            post.wf(),
    {
        let a0 = self.next().unwrap();
        let a1 = post.next().unwrap();
        assert forall|j: int|
            #![trigger post.slot_of(j)]
            #![trigger self.slot_of(j)]
            match self.slot_of(j) {
                Some(slot) => post.slot_of(j) == Some(slot),
                None => post.stored(j) is None,
            } by {
            if j >= self.offset() + self.slots().len() {
                assert(post.slot_of(j) == a1.slot_of(j));
                assert(self.slot_of(j) == a0.slot_of(j));
            }
        }
        assert forall|j: int| self.reaches(j) implies #[trigger] post.reaches(j) by {
            if j >= self.offset() + self.slots().len() {
                assert(a0.reaches(j));
                assert(a1.reaches(j));
            }
        }
    }

    proof fn lemma_grown_into_end(&self, post: &Self)
        requires
            self.wf(),
            post.offset() == self.offset(),
            post.slots() == self.slots(),
            post.link.start@ == self.link.start@,
            post.link.least@ == self.link.least@,
            self.next() is None,
            !post.linked(),
            post.link.next@ matches Some(node) ==> post.link.admits(&*node),
        ensures
            self.grown_into(post),
            post.wf(),
    {
        assert forall|j: int|
            #![trigger post.slot_of(j)]
            #![trigger self.slot_of(j)]
            match self.slot_of(j) {
                Some(slot) => post.slot_of(j) == Some(slot),
                None => post.stored(j) is None,
            } by {
            if j >= self.offset() + self.slots().len() {
                if let Some(node) = post.next() {
                    assert(post.slot_of(j) == node.slot_of(j));
                    node.lemma_fresh(j);
                }
            }
        }
        assert forall|j: int| self.reaches(j) implies #[trigger] post.reaches(j) by {}
    }
}

} // verus!
