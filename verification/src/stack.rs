use vstd::prelude::*;

verus! {

/// The value on top of `items`, or `fallback` where there is none.
pub open spec fn top_or<T>(items: Seq<T>, fallback: T) -> T {
    if items.len() > 0 {
        items.last()
    } else {
        fallback
    }
}

/// `items` without its top value; an empty sequence stays empty.
pub open spec fn below_top<T>(items: Seq<T>) -> Seq<T> {
    if items.len() > 0 {
        items.drop_last()
    } else {
        items
    }
}

/// A last-in, first-out store whose `pop` never fails: taken from an empty
/// stack it hands out the fallback value the stack was made with.
///
/// The view is the sequence of the values held, the top last.
#[derive(Debug)]
pub struct Stack<T: Copy> {
    inner: Vec<T>,
    default: T,
}

impl<T: Copy> View for Stack<T> {
    type V = Seq<T>;

    closed spec fn view(&self) -> Seq<T> {
        self.inner@
    }
}

impl<T: Copy> Stack<T> {
    /// The value that `pop` hands out when the stack is empty.
    pub closed spec fn fallback(&self) -> T {
        self.default
    }

    pub fn new(default: T) -> (stack: Self)
        ensures
            stack@ == Seq::<T>::empty(),
            stack.fallback() == default,
    {
        Stack { inner: Vec::new(), default }
    }

    pub fn pop(&mut self) -> (value: T)
        ensures
            value == top_or(old(self)@, old(self).fallback()),
            final(self)@ == below_top(old(self)@),
            final(self).fallback() == old(self).fallback(),
    {
        match self.inner.pop() {
            Some(value) => value,
            None => self.default,
        }
    }

    /// Two pops in a row; the first value popped comes first in the pair.
    pub fn pop2(&mut self) -> (pair: (T, T))
        ensures
            pair.0 == top_or(old(self)@, old(self).fallback()),
            pair.1 == top_or(below_top(old(self)@), old(self).fallback()),
            final(self)@ == below_top(below_top(old(self)@)),
            final(self).fallback() == old(self).fallback(),
    {
        let first = self.pop();
        let second = self.pop();
        (first, second)
    }

    pub fn push(&mut self, value: T)
        ensures
            final(self)@ == old(self)@.push(value),
            final(self).fallback() == old(self).fallback(),
    {
        self.inner.push(value);
    }

    pub fn len(&self) -> (n: usize)
        ensures
            n == self@.len(),
    {
        self.inner.len()
    }

    pub fn is_empty(&self) -> (empty: bool)
        ensures
            empty == (self@.len() == 0),
    {
        self.inner.len() == 0
    }

    /// The values held, the top last.
    pub fn as_slice(&self) -> (items: &[T])
        ensures
            items@ == self@,
    {
        self.inner.as_slice()
    }

    pub fn clear(&mut self)
        ensures
            final(self)@ == Seq::<T>::empty(),
            final(self).fallback() == old(self).fallback(),
    {
        self.inner.clear();
    }
}

} // verus!
