//! A list of items that are parsed one after another until the input ends.

use vstd::prelude::*;

verus! {

/// The items read from an input, in the order in which they stood there.
pub struct ParseVec<T>(pub Vec<T>);

impl<T> View for ParseVec<T> {
    type V = Seq<T>;

    open spec fn view(&self) -> Seq<T> {
        self.0@
    }
}

impl<T> ParseVec<T> {
    /// The list before the first item is read.
    pub fn new() -> (list: ParseVec<T>)
        ensures
            list@ == Seq::<T>::empty(),
    {
        ParseVec(Vec::new())
    }

    /// How many items the list holds.
    pub fn len(&self) -> (n: usize)
        ensures
            n == self@.len(),
    {
        self.0.len()
    }

    /// The list after one more item has been asked of the input: with the
    /// item at its end where the input gave one, and the input's error in
    /// the list's place where it did not.
    pub fn accept<E>(self, item: Result<T, E>) -> (next: Result<ParseVec<T>, E>)
        ensures
            match item {
                Ok(t) => next is Ok && next->Ok_0@ == self@.push(t),
                Err(e) => next == Err::<ParseVec<T>, E>(e),
            },
    {
        match item {
            Ok(t) => {
                let mut items = self.0;
                items.push(t);
                Ok(ParseVec(items))
            },
            Err(e) => Err(e),
        }
    }
}

impl<T> From<ParseVec<T>> for Vec<T> {
    fn from(value: ParseVec<T>) -> (items: Vec<T>) {
        value.0
    }
}

impl<T> vstd::std_specs::convert::FromSpecImpl<ParseVec<T>> for Vec<T> {
    open spec fn obeys_from_spec() -> bool {
        true
    }

    open spec fn from_spec(value: ParseVec<T>) -> Vec<T> {
        value.0
    }
}

impl<T> From<Vec<T>> for ParseVec<T> {
    fn from(value: Vec<T>) -> (list: ParseVec<T>) {
        ParseVec(value)
    }
}

impl<T> vstd::std_specs::convert::FromSpecImpl<Vec<T>> for ParseVec<T> {
    open spec fn obeys_from_spec() -> bool {
        true
    }

    open spec fn from_spec(value: Vec<T>) -> ParseVec<T> {
        ParseVec(value)
    }
}

} // verus!
