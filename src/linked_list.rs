//! A singly linked list used as the interpreter's stack.
use vstd::prelude::*;

verus! {

/// One cell of a linked list.
struct Element<T> {
    data: T,
    next: Option<Box<Element<T>>>,
}

/// A singly linked list; the front is the most recently pushed element.
pub struct LinkedList<T>(Option<Element<T>>);

spec fn element_seq<T>(e: Element<T>) -> Seq<T>
    decreases e,
{
    match e.next {
        Some(n) => seq![e.data] + element_seq(*n),
        None => seq![e.data],
    }
}

impl<T> View for LinkedList<T> {
    type V = Seq<T>;

    closed spec fn view(&self) -> Seq<T> {
        match self.0 {
            Some(e) => element_seq(e),
            None => Seq::empty(),
        }
    }
}

fn element_get<T>(e: &Element<T>, i: usize) -> (r: Option<&T>)
    ensures
        i < element_seq(*e).len() ==> r == Some(&element_seq(*e)[i as int]),
        i >= element_seq(*e).len() ==> r is None,
    decreases i,
{
    if i == 0 {
        Some(&e.data)
    } else {
        match &e.next {
            Some(n) => element_get(n, i - 1),
            None => None,
        }
    }
}

impl<T> LinkedList<T> {
    /// Pushes an element onto the front of the list.
    pub fn push(&mut self, element: T)
        ensures
            final(self)@ == seq![element] + old(self)@,
    {
        if let Some(old) = self.0.take() {
            self.0 = Some(Element { data: element, next: Some(Box::new(old)) });
        } else {
            self.0 = Some(Element { data: element, next: None });
        }
    }

    /// Removes and returns the front element, if there is one.
    pub fn pop(&mut self) -> (r: Option<T>)
        ensures
            old(self)@.len() == 0 ==> r is None && final(self)@ == old(self)@,
            old(self)@.len() > 0 ==> r == Some(old(self)@[0]) && final(self)@
                == old(self)@.drop_first(),
    {
        match self.0.take() {
            Some(e) => {
                self.0 = match e.next {
                    Some(n) => Some(*n),
                    None => None,
                };
                Some(e.data)
            },
            None => None,
        }
    }

    /// Removes and returns the front element; the same as `pop`.
    pub fn next(&mut self) -> (r: Option<T>)
        ensures
            old(self)@.len() == 0 ==> r is None && final(self)@ == old(self)@,
            old(self)@.len() > 0 ==> r == Some(old(self)@[0]) && final(self)@
                == old(self)@.drop_first(),
    {
        self.pop()
    }

    /// The front element, if there is one.
    pub fn read(&self) -> (r: Option<&T>)
        ensures
            self@.len() == 0 ==> r is None,
            self@.len() > 0 ==> r == Some(&self@[0]),
    {
        match &self.0 {
            Some(e) => Some(&e.data),
            None => None,
        }
    }

    /// The element at depth `i` (0 is the front), if there is one.
    pub fn get(&self, i: usize) -> (r: Option<&T>)
        ensures
            i < self@.len() ==> r == Some(&self@[i as int]),
            i >= self@.len() ==> r is None,
    {
        match &self.0 {
            Some(e) => element_get(e, i),
            None => None,
        }
    }

    /// Removes every element.
    pub fn clear(&mut self)
        ensures
            final(self)@ == Seq::<T>::empty(),
    {
        *self = Self::new();
    }

    /// Creates an empty list.
    pub fn new() -> (r: Self)
        ensures
            r@ == Seq::<T>::empty(),
    {
        LinkedList(None)
    }
}

} // verus!
