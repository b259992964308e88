//! A singly linked stack of values of any type.
use vstd::prelude::*;

verus! {

/// A cell of the list: a value and the rest of the list.
pub struct Node<T> {
    value: T,
    next: Option<Box<Node<T>>>,
}

/// The values of a chain of nodes, first node first.
pub closed spec fn chain_view<T>(link: Option<Box<Node<T>>>) -> Seq<T>
    decreases link,
{
    match link {
        None => Seq::empty(),
        Some(node) => seq![node.value] + chain_view(node.next),
    }
}

impl<T> View for Node<T> {
    type V = Seq<T>;

    /// The values from this node to the end of its chain.
    closed spec fn view(&self) -> Seq<T> {
        seq![self.value] + chain_view(self.next)
    }
}

impl<T> Node<T> {
    /// A node holding `value` in front of the chain `next`.
    pub fn new(value: T, next: Option<Box<Node<T>>>) -> (r: Node<T>)
        ensures
            r@ == seq![value] + chain_view(next),
    {
        Node { value, next }
    }
}

/// A list with constant-time insertion and removal at the front.
pub struct LinkedList<T> {
    head: Option<Box<Node<T>>>,
    size: usize,
}

impl<T> View for LinkedList<T> {
    type V = Seq<T>;

    closed spec fn view(&self) -> Seq<T> {
        chain_view(self.head)
    }
}

impl<T> LinkedList<T> {
    /// The stored size is the number of values.
    pub closed spec fn wf(&self) -> bool {
        self.size == self@.len()
    }

    /// An empty list.
    pub fn new() -> (r: LinkedList<T>)
        ensures
            r.wf(),
            r@ == Seq::<T>::empty(),
    {
        LinkedList { head: None, size: 0 }
    }

    /// The number of values in the list.
    pub fn get_size(&self) -> (r: usize)
        requires
            self.wf(),
        ensures
            r == self@.len(),
    {
        self.size
    }

    /// Whether the list holds no value.
    pub fn is_empty(&self) -> (r: bool)
        requires
            self.wf(),
        ensures
            r == (self@.len() == 0),
    {
        self.get_size() == 0
    }

    /// Puts `value` in front of the list.
    pub fn push_front(&mut self, value: T)
        requires
            old(self).wf(),
            old(self)@.len() < usize::MAX,
        ensures
            final(self).wf(),
            final(self)@ == seq![value] + old(self)@,
    {
        let new_node: Box<Node<T>> = Box::new(Node::new(value, self.head.take()));
        self.head = Some(new_node);
        self.size = self.size + 1;
    }

    /// Takes the front value out of the list, if there is one.
    pub fn pop_front(&mut self) -> (r: Option<T>)
        requires
            old(self).wf(),
        ensures
            final(self).wf(),
            old(self)@.len() == 0 ==> r is None && final(self)@ == old(self)@,
            old(self)@.len() > 0 ==> r == Some(old(self)@[0]) && final(self)@ == old(self)@.drop_first(),
    {
        match self.head.take() {
            None => None,
            Some(node) => {
                let node = *node;
                proof {
                    assert(old(self)@ == seq![node.value] + chain_view(node.next));
                    assert((seq![node.value] + chain_view(node.next)).drop_first() =~= chain_view(node.next));
                }
                self.head = node.next;
                self.size = self.size - 1;
                Some(node.value)
            },
        }
    }

    /// A walk over the list's values, front first, that leaves the list as it is.
    pub fn iter(&self) -> (r: LinkedListIter<'_, T>)
        ensures
            r@ == self@,
    {
        LinkedListIter { current: &self.head }
    }
}

/// A walk over a list's values by reference, front first.
pub struct LinkedListIter<'a, T> {
    current: &'a Option<Box<Node<T>>>,
}

impl<'a, T> View for LinkedListIter<'a, T> {
    type V = Seq<T>;

    /// The values not yet visited.
    closed spec fn view(&self) -> Seq<T> {
        chain_view(*self.current)
    }
}

impl<'a, T> LinkedListIter<'a, T> {
    /// The next value, if any is left.
    pub fn next(&mut self) -> (r: Option<&'a T>)
        ensures
            old(self)@.len() == 0 ==> r is None && final(self)@ == old(self)@,
            old(self)@.len() > 0 ==> r == Some(&old(self)@[0]) && final(self)@
                == old(self)@.drop_first(),
    {
        match self.current {
            Some(node) => {
                proof {
                    assert((seq![node.value] + chain_view(node.next)).drop_first() =~= chain_view(node.next));
                }
                self.current = &node.next;
                Some(&node.value)
            },
            None => None,
        }
    }
}

} // verus!
