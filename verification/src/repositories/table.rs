//! Rows kept in a vector, each under its own identifier, and what such a
//! vector is as a map from identifier to row.

use crate::entities::block::Block;
use crate::entities::note::Note;
use crate::entities::user::User;
use crate::entities::workspace::Workspace;
use crate::repositories::replaced;
use vstd::prelude::*;

verus! {

/// No two rows of `v` have the same key.
pub open spec fn distinct<T>(v: Seq<T>, key: spec_fn(T) -> u128) -> bool {
    forall|i: int, j: int| 0 <= i < j < v.len() ==> key(#[trigger] v[i]) != key(#[trigger] v[j])
}

/// Some row of `v` has the key `id`.
pub open spec fn has_key<T>(v: Seq<T>, key: spec_fn(T) -> u128, id: u128) -> bool {
    exists|i: int| 0 <= i < v.len() && key(#[trigger] v[i]) == id
}

/// A place in `v` of a row with the key `id`.
pub open spec fn place_of<T>(v: Seq<T>, key: spec_fn(T) -> u128, id: u128) -> int {
    choose|i: int| 0 <= i < v.len() && key(#[trigger] v[i]) == id
}

/// The rows of `v` by key.
pub open spec fn keyed<T>(v: Seq<T>, key: spec_fn(T) -> u128) -> Map<u128, T> {
    Map::new(|id: u128| has_key(v, key, id), |id: u128| v[place_of(v, key, id)])
}

/// Among rows with distinct keys, the row at a place is the row stored
/// under its key.
pub proof fn lemma_keyed_at<T>(v: Seq<T>, key: spec_fn(T) -> u128, i: int)
    requires
        distinct(v, key),
        0 <= i < v.len(),
    ensures
        keyed(v, key).contains_key(key(v[i])),
        keyed(v, key)[key(v[i])] == v[i],
        place_of(v, key, key(v[i])) == i,
{
    let id = key(v[i]);
    assert(has_key(v, key, id));
    let p = place_of(v, key, id);
    assert(0 <= p < v.len() && key(v[p]) == id);
    if p < i {
        assert(key(v[p]) != key(v[i]));
    }
    if i < p {
        assert(key(v[i]) != key(v[p]));
    }
}

/// Appending a row with a new key stores it under that key.
pub proof fn lemma_keyed_push<T>(v: Seq<T>, key: spec_fn(T) -> u128, row: T)
    requires
        distinct(v, key),
        !has_key(v, key, key(row)),
    ensures
        distinct(v.push(row), key),
        keyed(v.push(row), key) == keyed(v, key).insert(key(row), row),
{
    let w = v.push(row);
    assert forall|i: int, j: int| 0 <= i < j < w.len() implies key(#[trigger] w[i]) != key(
        #[trigger] w[j],
    ) by {
        if j == v.len() {
            assert(w[i] == v[i]);
            assert(key(v[i]) != key(row));
        } else {
            assert(w[i] == v[i] && w[j] == v[j]);
        }
    }
    assert forall|id: u128| has_key(w, key, id) <==> (id == key(row) || has_key(v, key, id)) by {
        if has_key(v, key, id) {
            let i = place_of(v, key, id);
            assert(w[i] == v[i]);
        }
        if id == key(row) {
            assert(w[v.len() as int] == row);
        }
        if has_key(w, key, id) {
            let i = place_of(w, key, id);
            if i < v.len() {
                assert(w[i] == v[i]);
            }
        }
    }
    assert forall|id: u128| has_key(w, key, id) implies keyed(w, key)[id] == keyed(v, key).insert(
        key(row),
        row,
    )[id] by {
        if id == key(row) {
            lemma_keyed_at(w, key, v.len() as int);
        } else {
            let i = place_of(v, key, id);
            assert(w[i] == v[i]);
            lemma_keyed_at(w, key, i);
            lemma_keyed_at(v, key, i);
        }
    }
    assert(keyed(w, key) =~= keyed(v, key).insert(key(row), row));
}

/// Replacing a row by one with the same key stores the new row under it.
pub proof fn lemma_keyed_update<T>(v: Seq<T>, key: spec_fn(T) -> u128, i: int, row: T)
    requires
        distinct(v, key),
        0 <= i < v.len(),
        key(row) == key(v[i]),
    ensures
        distinct(v.update(i, row), key),
        keyed(v.update(i, row), key) == keyed(v, key).insert(key(row), row),
{
    let w = v.update(i, row);
    assert forall|a: int| 0 <= a < w.len() implies key(#[trigger] w[a]) == key(v[a]) by {}
    assert forall|a: int, b: int| 0 <= a < b < w.len() implies key(#[trigger] w[a]) != key(
        #[trigger] w[b],
    ) by {
        assert(key(v[a]) != key(v[b]));
    }
    assert forall|id: u128| has_key(w, key, id) <==> has_key(v, key, id) by {
        if has_key(v, key, id) {
            let a = place_of(v, key, id);
            assert(key(w[a]) == id);
        }
        if has_key(w, key, id) {
            let a = place_of(w, key, id);
            assert(key(v[a]) == id);
        }
    }
    lemma_keyed_at(v, key, i);
    assert forall|id: u128| has_key(w, key, id) implies keyed(w, key)[id] == keyed(v, key).insert(
        key(row),
        row,
    )[id] by {
        let a = place_of(w, key, id);
        lemma_keyed_at(w, key, a);
        lemma_keyed_at(v, key, a);
    }
    assert(keyed(w, key) =~= keyed(v, key).insert(key(row), row));
}

/// Taking a row out removes its key.
pub proof fn lemma_keyed_remove<T>(v: Seq<T>, key: spec_fn(T) -> u128, i: int)
    requires
        distinct(v, key),
        0 <= i < v.len(),
    ensures
        distinct(v.remove(i), key),
        keyed(v.remove(i), key) == keyed(v, key).remove(key(v[i])),
{
    let w = v.remove(i);
    assert forall|a: int| 0 <= a < w.len() implies #[trigger] w[a] == v[if a < i {
        a
    } else {
        a + 1
    }] by {}
    assert forall|a: int, b: int| 0 <= a < b < w.len() implies key(#[trigger] w[a]) != key(
        #[trigger] w[b],
    ) by {
        let a2 = if a < i {
            a
        } else {
            a + 1
        };
        let b2 = if b < i {
            b
        } else {
            b + 1
        };
        assert(key(v[a2]) != key(v[b2]));
    }
    assert forall|id: u128| has_key(w, key, id) <==> (has_key(v, key, id) && id != key(v[i])) by {
        if has_key(v, key, id) && id != key(v[i]) {
            let a = place_of(v, key, id);
            if a < i {
                assert(w[a] == v[a]);
            } else {
                assert(w[a - 1] == v[a]);
            }
        }
        if has_key(w, key, id) {
            let a = place_of(w, key, id);
            let a2 = if a < i {
                a
            } else {
                a + 1
            };
            assert(key(v[a2]) == id);
            if a2 < i {
                assert(key(v[a2]) != key(v[i]));
            } else {
                assert(key(v[i]) != key(v[a2]));
            }
        }
    }
    assert forall|id: u128| has_key(w, key, id) implies keyed(w, key)[id] == keyed(v, key)[id] by {
        let a = place_of(w, key, id);
        let a2 = if a < i {
            a
        } else {
            a + 1
        };
        lemma_keyed_at(w, key, a);
        lemma_keyed_at(v, key, a2);
    }
    assert(keyed(w, key) =~= keyed(v, key).remove(key(v[i])));
}

/// Filtering a sequence with one more element behind: the element comes
/// last if it is kept, and nothing else changes.
pub proof fn lemma_filter_push<T>(v: Seq<T>, keep: spec_fn(T) -> bool, row: T)
    ensures
        v.push(row).filter(keep) == if keep(row) {
            v.filter(keep).push(row)
        } else {
            v.filter(keep)
        },
{
    reveal(Seq::filter);
    assert(v.push(row).drop_last() =~= v);
}

/// A row of a table: it is stored under its identifier and can be copied.
pub trait Record: Sized {
    /// The identifier the row is stored under.
    spec fn key(self) -> u128;

    fn id(&self) -> (r: u128)
        ensures
            r == self.key(),
    ;

    fn copy(&self) -> (r: Self)
        ensures
            r == *self,
    ;
}

impl Record for Block {
    open spec fn key(self) -> u128 {
        self.id
    }

    fn id(&self) -> (r: u128) {
        self.id
    }

    fn copy(&self) -> (r: Self) {
        self.clone()
    }
}

impl Record for Note {
    open spec fn key(self) -> u128 {
        self.id
    }

    fn id(&self) -> (r: u128) {
        self.id
    }

    fn copy(&self) -> (r: Self) {
        self.clone()
    }
}

impl Record for User {
    open spec fn key(self) -> u128 {
        self.id
    }

    fn id(&self) -> (r: u128) {
        self.id
    }

    fn copy(&self) -> (r: Self) {
        self.clone()
    }
}

impl Record for Workspace {
    open spec fn key(self) -> u128 {
        self.id
    }

    fn id(&self) -> (r: u128) {
        self.id
    }

    fn copy(&self) -> (r: Self) {
        self.clone()
    }
}

/// The key of a record, as a function.
pub open spec fn key_of<T: Record>() -> spec_fn(T) -> u128 {
    |row: T| row.key()
}

/// Rows in the order in which they were stored, no two under one
/// identifier.
pub struct Table<T: Record> {
    rows: Vec<T>,
}

impl<T: Record> Table<T> {
    #[verifier::type_invariant]
    spec fn well_formed(&self) -> bool {
        distinct(self.rows@, key_of::<T>())
    }

    /// The rows in their order.
    pub closed spec fn listing(&self) -> Seq<T> {
        self.rows@
    }

    /// The rows by identifier.
    pub open spec fn by_key(&self) -> Map<u128, T> {
        keyed(self.listing(), key_of::<T>())
    }

    pub fn new() -> (r: Self)
        ensures
            r.listing() == Seq::<T>::empty(),
            r.by_key() == Map::<u128, T>::empty(),
    {
        let r = Table { rows: Vec::new() };
        proof {
            assert(keyed(r.rows@, key_of::<T>()) =~= Map::<u128, T>::empty());
        }
        r
    }

    /// How many rows there are. No two of them stand under one identifier.
    pub fn len(&self) -> (r: usize)
        ensures
            r == self.listing().len(),
            distinct(self.listing(), key_of::<T>()),
    {
        proof {
            use_type_invariant(self);
        }
        self.rows.len()
    }

    pub fn row(&self, i: usize) -> (r: &T)
        requires
            i < self.listing().len(),
        ensures
            *r == self.listing()[i as int],
    {
        &self.rows[i]
    }

    /// The place of the row stored under `id`.
    pub fn place(&self, id: u128) -> (r: Option<usize>)
        ensures
            match r {
                Some(i) => i < self.listing().len() && self.listing()[i as int].key() == id
                    && self.by_key().contains_key(id) && self.by_key()[id]
                    == self.listing()[i as int],
                None => !self.by_key().contains_key(id),
            },
    {
        proof {
            use_type_invariant(self);
        }
        let mut i: usize = 0;
        while i < self.rows.len()
            invariant
                i <= self.rows.len(),
                distinct(self.rows@, key_of::<T>()),
                forall|k: int| 0 <= k < i ==> (#[trigger] self.rows[k]).key() != id,
            decreases self.rows.len() - i,
        {
            if self.rows[i].id() == id {
                proof {
                    lemma_keyed_at(self.rows@, key_of::<T>(), i as int);
                }
                return Some(i);
            }
            i += 1;
        }
        None
    }

    /// A copy of the rows, in their order.
    pub fn copy_all(&self) -> (r: Vec<T>)
        ensures
            r@ == self.listing(),
            distinct(self.listing(), key_of::<T>()),
    {
        proof {
            use_type_invariant(self);
        }
        let mut out: Vec<T> = Vec::new();
        let mut i: usize = 0;
        while i < self.rows.len()
            invariant
                i <= self.rows.len(),
                out.len() == i,
                forall|k: int| 0 <= k < i ==> out[k] == self.rows[k],
            decreases self.rows.len() - i,
        {
            out.push(self.rows[i].copy());
            i += 1;
        }
        proof {
            assert(out@ =~= self.rows@);
        }
        out
    }

    /// Stores `data` behind the other rows, unless its identifier is in
    /// use; says whether it was stored.
    pub fn insert(&mut self, data: T) -> (stored: bool)
        ensures
            stored == !old(self).by_key().contains_key(data.key()),
            stored ==> final(self).listing() == old(self).listing().push(data) && final(
                self
            ).by_key() == old(self).by_key().insert(data.key(), data),
            !stored ==> final(self).listing() == old(self).listing(),
    {
        proof {
            use_type_invariant(&*self);
        }
        match self.place(data.id()) {
            Some(_) => false,
            None => {
                proof {
                    lemma_keyed_push(self.rows@, key_of::<T>(), data);
                }
                let mut rows = self.copy_all();
                rows.push(data);
                self.rows = rows;
                true
            },
        }
    }

    /// Takes the row stored under `id` out, if there is one.
    pub fn remove(&mut self, id: u128)
        ensures
            final(self).by_key() == old(self).by_key().remove(id),
    {
        proof {
            use_type_invariant(&*self);
        }
        match self.place(id) {
            Some(i) => {
                proof {
                    lemma_keyed_remove(self.rows@, key_of::<T>(), i as int);
                }
                let mut rows = self.copy_all();
                rows.remove(i);
                self.rows = rows;
            },
            None => {
                proof {
                    assert(self.by_key().remove(id) =~= self.by_key());
                }
            },
        }
    }

    /// Puts `data` in the place of the row stored under its identifier, if
    /// there is one.
    pub fn replace(&mut self, data: T)
        ensures
            final(self).by_key() == replaced(
                old(self).by_key(),
                data.key(),
                data,
            ),
    {
        proof {
            use_type_invariant(&*self);
        }
        match self.place(data.id()) {
            Some(i) => {
                proof {
                    lemma_keyed_update(self.rows@, key_of::<T>(), i as int, data);
                }
                let mut rows = self.copy_all();
                rows.set(i, data);
                self.rows = rows;
            },
            None => {},
        }
    }
}

} // verus!
