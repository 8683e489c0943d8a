use vstd::prelude::*;
use std::collections::HashMap;
use std::sync::Arc;
use crate::module::{ModuleUID, share};

verus! {

broadcast use {vstd::std_specs::hash::group_hash_axioms, vstd::std_specs::hash::axiom_u64_obeys_hash_table_key_model};

/// The modules of a running engine, by identifier.
pub struct ModuleStore<M> {
    pub modules: HashMap<u64, Arc<M>>,
}

impl<M> ModuleStore<M> {
    /// The modules held, by identifier.
    pub open spec fn view_map(&self) -> Map<u64, M> {
        Map::new(|k: u64| self.modules@.contains_key(k), |k: u64| *self.modules@[k])
    }

    /// A store without modules.
    pub fn new() -> (r: ModuleStore<M>)
        ensures
            r.view_map() == Map::<u64, M>::empty(),
    {
        let r = ModuleStore { modules: HashMap::new() };
        proof {
            assert(r.view_map() =~= Map::<u64, M>::empty());
        }
        r
    }

    /// Puts `module` under `uid`, in place of the module that was there.
    pub fn insert(&mut self, uid: ModuleUID, module: M)
        ensures
            final(self).view_map() == old(self).view_map().insert(uid.0, module),
    {
        let ghost mv = module;
        self.modules.insert(uid.0, Arc::new(module));
        proof {
            assert(self.view_map() =~= old(self).view_map().insert(uid.0, mv));
        }
    }

    /// The module under `uid`, if there is one.
    pub fn get(&self, uid: ModuleUID) -> (r: Option<Arc<M>>)
        ensures
            match r {
                Some(m) => self.view_map().contains_key(uid.0) && *m == self.view_map()[uid.0],
                None => !self.view_map().contains_key(uid.0),
            },
    {
        match self.modules.get(&uid.0) {
            Some(m) => Some(share(m)),
            None => None,
        }
    }

    /// The number of modules held.
    pub fn len(&self) -> (r: usize)
        ensures
            r == self.view_map().dom().len(),
    {
        proof {
            assert(self.view_map().dom() =~= self.modules@.dom());
        }
        self.modules.len()
    }
}

/// A module put in a store is what the store gives back under its identifier; the modules under
/// other identifiers stay as they were, and the store holds one module more exactly when the
/// identifier was new.
pub proof fn law_store_get_after_insert<M>(before: Map<u64, M>, uid: u64, module: M, other: u64)
    requires
        before.dom().finite(),
    ensures
        before.insert(uid, module).get(uid) == Some(module),
        other != uid ==> before.insert(uid, module).get(other) == before.get(other),
        before.insert(uid, module).dom().len() == if before.contains_key(uid) { before.dom().len() } else { before.dom().len() + 1 },
{
    if before.contains_key(uid) {
        assert(before.insert(uid, module).dom() =~= before.dom());
    }
}

} // verus!
