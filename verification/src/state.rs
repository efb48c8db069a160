//! The state store: application state shared by callbacks, reached through
//! tokens.
//!
//! A store holds values of one type, and its tokens are of that type. A
//! token is a key, not a pointer: it names the store that issued it and a
//! place in that store, and the store checks both on every access. A token
//! of another store, or one that names no value, is refused instead of
//! reaching some unrelated value. Values are never removed, so a token stays
//! good for as long as its store lives.

use vstd::prelude::*;
use std::marker::PhantomData;

verus! {

/// The capability to reach one value of type `T` in one state store.
#[derive(PartialEq, Eq, Debug)]
pub struct StateToken<T> {
    /// The id of the store that issued the token.
    pub store: u64,
    /// The place of the value in that store.
    pub index: usize,
    /// What the token reaches is a `T`.
    pub kind: PhantomData<T>,
}

impl<T> Clone for StateToken<T> {
    fn clone(&self) -> (token: StateToken<T>)
        ensures
            token == *self,
    {
        StateToken { store: self.store, index: self.index, kind: PhantomData }
    }
}

impl<T> Copy for StateToken<T> {

}

impl<T> StateToken<T> {
    /// The token for a place in a store.
    pub fn new(store: u64, index: usize) -> (token: StateToken<T>)
        ensures
            token.store == store,
            token.index == index,
    {
        StateToken { store, index, kind: PhantomData }
    }
}

/// A store of values of type `T`.
pub struct StateStore<T> {
    id: u64,
    values: Vec<T>,
}

impl<T> View for StateStore<T> {
    type V = Seq<T>;

    /// The values, in the order they were inserted.
    closed spec fn view(&self) -> Seq<T> {
        self.values@
    }
}

impl<T> StateStore<T> {
    /// The id that tells this store from others. Stores that are used side
    /// by side need different ids.
    pub closed spec fn id(&self) -> u64 {
        self.id
    }

    /// The token was issued by this store.
    pub open spec fn owns(&self, token: StateToken<T>) -> bool {
        token.store == self.id() && token.index < self@.len()
    }

    /// An empty store with the given id.
    pub fn new(id: u64) -> (store: StateStore<T>)
        ensures
            store.id() == id,
            store@.len() == 0,
    {
        StateStore { id, values: Vec::new() }
    }

    /// The id of this store.
    pub fn store_id(&self) -> (id: u64)
        ensures
            id == self.id(),
    {
        self.id
    }

    /// The number of values in the store.
    pub fn len(&self) -> (len: usize)
        ensures
            len == self@.len(),
    {
        self.values.len()
    }

    /// Puts a value into the store and returns the token that reaches it.
    /// The values already there stay where they are.
    pub fn insert(&mut self, value: T) -> (token: StateToken<T>)
        ensures
            final(self).id() == old(self).id(),
            final(self)@ == old(self)@.push(value),
            token.store == old(self).id(),
            token.index == old(self)@.len(),
            final(self).owns(token),
            forall|earlier: StateToken<T>|
                old(self).owns(earlier) ==> #[trigger] final(self).owns(earlier) && final(
                    self)@[earlier.index as int] == old(self)@[earlier.index as int],
    {
        self.values.push(value);
        StateToken { store: self.id, index: self.values.len() - 1, kind: PhantomData }
    }

    /// Whether the token was issued by this store.
    pub fn accepts(&self, token: &StateToken<T>) -> (owned: bool)
        ensures
            owned == self.owns(*token),
    {
        token.store == self.id && token.index < self.values.len()
    }

    /// The value that the token reaches, or `None` for a token that this
    /// store did not issue.
    pub fn get(&self, token: &StateToken<T>) -> (value: Option<&T>)
        ensures
            value == if self.owns(*token) {
                Some(&self@[token.index as int])
            } else {
                None
            },
    {
        if token.store == self.id && token.index < self.values.len() {
            Some(&self.values[token.index])
        } else {
            None
        }
    }

    /// The value that the token reaches, for changing it in place.
    pub fn get_mut(&mut self, token: &StateToken<T>) -> (value: &mut T)
        requires
            old(self).owns(*token),
        ensures
            *value == old(self)@[token.index as int],
            final(self)@ == old(self)@.update(token.index as int, *final(value)),
            final(self).id() == old(self).id(),
    {
        &mut self.values[token.index]
    }

    /// Puts `value` in the place that the token reaches and hands back what
    /// was there. A token that this store did not issue changes nothing, and
    /// the value comes back as the error.
    pub fn replace(&mut self, token: &StateToken<T>, value: T) -> (previous: Result<T, T>)
        ensures
            final(self).id() == old(self).id(),
            match previous {
                Ok(before) => old(self).owns(*token) && before == old(self)@[token.index as int]
                    && final(self)@ == old(self)@.update(token.index as int, value),
                Err(rejected) => !old(self).owns(*token) && rejected == value && final(self)@
                    == old(self)@,
            },
    {
        if token.store == self.id && token.index < self.values.len() {
            let mut held = value;
            std::mem::swap(&mut held, &mut self.values[token.index]);
            Ok(held)
        } else {
            Err(value)
        }
    }
}

} // verus!
