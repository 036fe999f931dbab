//! The registry of shared instances, one per type: types are named by their
//! type name, instances by the handle the caller keeps for them. Some types
//! are protected: the registry makes their default instance on demand,
//! never replaces one that is registered and never gives one up.
use vstd::prelude::*;

use crate::error::{Error, ErrorType};
use crate::table::{find_key, keys_unique, lemma_table_remove, string_views, table_insert, table_map};
use crate::text::{chars_eq, chars_of, push_all, string_of};

verus! {

/// The registry.
pub struct Factory {
    registry: Vec<(String, u64)>,
    protected: Vec<String>,
}

/// `"` and the name and `"`, as `{:?}` writes a type name.
pub open spec fn quoted(name: Seq<char>) -> Seq<char> {
    seq!['"'] + name + seq!['"']
}

fn quote(name: &str) -> (r: Vec<char>)
    ensures
        r@ == quoted(name@),
{
    let mut r: Vec<char> = Vec::new();
    r.push('"');
    let n = chars_of(name);
    push_all(&mut r, &n);
    r.push('"');
    r
}

impl View for Factory {
    type V = Map<Seq<char>, u64>;

    /// The handle registered under each type name.
    closed spec fn view(&self) -> Map<Seq<char>, u64> {
        table_map(self.registry@)
    }
}

impl Factory {
    pub closed spec fn well_formed(&self) -> bool {
        keys_unique(self.registry@)
    }

    /// The names of the protected types.
    pub closed spec fn protected_names(&self) -> Seq<Seq<char>> {
        string_views(self.protected@)
    }

    /// A type is protected.
    pub open spec fn is_protected_spec(&self, name: Seq<char>) -> bool {
        self.protected_names().contains(name)
    }

    /// An empty registry with the given protected types.
    pub fn new(protected: Vec<String>) -> (r: Factory)
        ensures
            r.well_formed(),
            r@ == Map::<Seq<char>, u64>::empty(),
            r.protected_names() == string_views(protected@),
    {
        let r = Factory { registry: Vec::new(), protected };
        assert(table_map(r.registry@) =~= Map::<Seq<char>, u64>::empty());
        r
    }

    /// The type is protected.
    pub fn protected(&self, name: &str) -> (r: bool)
        ensures
            r == self.is_protected_spec(name@),
    {
        let n = chars_of(name);
        let mut i: usize = 0;
        while i < self.protected.len()
            invariant
                0 <= i <= self.protected@.len(),
                n@ == name@,
                forall|j: int| 0 <= j < i ==> #[trigger] self.protected@[j]@ != name@,
            decreases self.protected@.len() - i,
        {
            let p = chars_of(self.protected[i].as_str());
            if chars_eq(&p, &n) {
                assert(self.protected_names()[i as int] == name@);
                return true;
            }
            i = i + 1;
        }
        assert forall|j: int| 0 <= j < self.protected_names().len() implies #[trigger] self.protected_names()[j] != name@ by {
            assert(self.protected_names()[j] == self.protected@[j]@);
        }
        false
    }

    /// An instance of the type is registered.
    pub fn registered(&self, name: &str) -> (r: bool)
        requires
            self.well_formed(),
        ensures
            r == self@.contains_key(name@),
    {
        let n = chars_of(name);
        find_key(&self.registry, &n).is_some()
    }

    /// Registers an instance of the type and gives back the one that stands
    /// registered: for a protected type that is already registered the one
    /// there, which stays; else the new one, in place of any earlier one.
    pub fn insert(&mut self, name: &str, handle: u64) -> (r: u64)
        requires
            old(self).well_formed(),
        ensures
            final(self).well_formed(),
            final(self).protected_names() == old(self).protected_names(),
            old(self).is_protected_spec(name@) && old(self)@.contains_key(name@) ==> r == old(self)@[name@]
                && final(self)@ == old(self)@,
            !(old(self).is_protected_spec(name@) && old(self)@.contains_key(name@)) ==> r == handle
                && final(self)@ == old(self)@.insert(name@, handle),
    {
        let n = chars_of(name);
        if self.protected(name) {
            if let Some(i) = find_key(&self.registry, &n) {
                return self.registry[i].1;
            }
        }
        let key = string_of(&n);
        table_insert(&mut self.registry, key, handle);
        handle
    }

    /// Takes the instance of the type out of the registry and gives it
    /// back, if there is one; a protected type is refused.
    pub fn remove(&mut self, name: &str) -> (r: Result<Option<u64>, Error>)
        requires
            old(self).well_formed(),
        ensures
            final(self).well_formed(),
            final(self).protected_names() == old(self).protected_names(),
            old(self).is_protected_spec(name@) ==> final(self)@ == old(self)@ && r is Err
                && r->Err_0.error_type == ErrorType::PermissionDenied && r->Err_0.message@
                == "Cannot remove protected instance: "@ + quoted(name@),
            !old(self).is_protected_spec(name@) ==> r == Ok::<Option<u64>, Error>(
                if old(self)@.contains_key(name@) {
                    Some(old(self)@[name@])
                } else {
                    None
                },
            ) && final(self)@ == old(self)@.remove(name@),
    {
        if self.protected(name) {
            let q = quote(name);
            let mut m = chars_of("Cannot remove protected instance: ");
            push_all(&mut m, &q);
            let ms = string_of(&m);
            proof {
                reveal_strlit("Cannot remove protected instance: ");
            }
            return Err(Error::permission_denied(ms.as_str()));
        }
        let n = chars_of(name);
        match find_key(&self.registry, &n) {
            Some(i) => {
                proof {
                    lemma_table_remove(self.registry@, i as int);
                }
                let (_, h) = self.registry.remove(i);
                Ok(Some(h))
            },
            None => {
                assert(old(self)@.remove(name@) =~= old(self)@);
                Ok(None)
            },
        }
    }

    /// The instance of the type, registering `fresh`, its default instance,
    /// where none is there.
    pub fn get_or_insert(&mut self, name: &str, fresh: u64) -> (r: u64)
        requires
            old(self).well_formed(),
        ensures
            final(self).well_formed(),
            final(self).protected_names() == old(self).protected_names(),
            old(self)@.contains_key(name@) ==> r == old(self)@[name@] && final(self)@ == old(self)@,
            !old(self)@.contains_key(name@) ==> r == fresh && final(self)@ == old(self)@.insert(
                name@,
                fresh,
            ),
    {
        let n = chars_of(name);
        if let Some(i) = find_key(&self.registry, &n) {
            return self.registry[i].1;
        }
        let key = string_of(&n);
        table_insert(&mut self.registry, key, fresh);
        fresh
    }

    /// The instance of the type, registering `made`, the one the caller's
    /// closure makes, where none is there.
    pub fn get_or_set(&mut self, name: &str, made: u64) -> (r: u64)
        requires
            old(self).well_formed(),
        ensures
            final(self).well_formed(),
            final(self).protected_names() == old(self).protected_names(),
            old(self)@.contains_key(name@) ==> r == old(self)@[name@] && final(self)@ == old(self)@,
            !old(self)@.contains_key(name@) ==> r == made && final(self)@ == old(self)@.insert(
                name@,
                made,
            ),
    {
        let n = chars_of(name);
        if let Some(i) = find_key(&self.registry, &n) {
            return self.registry[i].1;
        }
        self.insert(name, made)
    }

    /// The instance of the type. A protected type that has none gets its
    /// default instance `fresh` registered; any other type that has none is
    /// an error.
    pub fn get(&mut self, name: &str, fresh: u64) -> (r: Result<u64, Error>)
        requires
            old(self).well_formed(),
        ensures
            final(self).well_formed(),
            final(self).protected_names() == old(self).protected_names(),
            old(self)@.contains_key(name@) ==> r == Ok::<u64, Error>(old(self)@[name@]) && final(self)@
                == old(self)@,
            !old(self)@.contains_key(name@) && old(self).is_protected_spec(name@) ==> r == Ok::<
                u64,
                Error,
            >(fresh) && final(self)@ == old(self)@.insert(name@, fresh),
            !old(self)@.contains_key(name@) && !old(self).is_protected_spec(name@) ==> final(self)@
                == old(self)@ && r is Err && r->Err_0.error_type == ErrorType::Other && r->Err_0.message@
                == "Factory find failed: Not found instance for: "@ + quoted(name@),
    {
        let n = chars_of(name);
        if let Some(i) = find_key(&self.registry, &n) {
            return Ok(self.registry[i].1);
        }
        if self.protected(name) {
            let key = string_of(&n);
            table_insert(&mut self.registry, key, fresh);
            return Ok(fresh);
        }
        let q = quote(name);
        let mut m = chars_of("Factory find failed: Not found instance for: ");
        push_all(&mut m, &q);
        let ms = string_of(&m);
        proof {
            reveal_strlit("Factory find failed: Not found instance for: ");
        }
        Err(Error::other(ms.as_str()))
    }

    /// The registered instance of the type is `handle`; looking it up
    /// registers a protected type's default instance `fresh` where it has
    /// none, as `get` does.
    pub fn contains(&mut self, name: &str, handle: u64, fresh: u64) -> (r: bool)
        requires
            old(self).well_formed(),
        ensures
            final(self).well_formed(),
            final(self).protected_names() == old(self).protected_names(),
            old(self)@.contains_key(name@) ==> r == (old(self)@[name@] == handle) && final(self)@
                == old(self)@,
            !old(self)@.contains_key(name@) && old(self).is_protected_spec(name@) ==> r == (fresh
                == handle) && final(self)@ == old(self)@.insert(name@, fresh),
            !old(self)@.contains_key(name@) && !old(self).is_protected_spec(name@) ==> !r && final(self)@
                == old(self)@,
    {
        match self.get(name, fresh) {
            Ok(h) => h == handle,
            Err(_) => false,
        }
    }
}

} // verus!
