use vstd::prelude::*;
use std::sync::Arc;
use crate::lang_value::{LangValue, LangValueV, fields_view, lemma_fields_view};
use crate::module::ModuleUID;
use crate::module_store::ModuleStore;
use crate::named::{named_get, named_set, unique_names};

verus! {

broadcast use vstd::std_specs::vec::axiom_spec_len;

/// The value of `name` among named values, if it has one.
pub open spec fn var_lookup(vars: Map<Seq<char>, LangValueV>, name: Seq<char>) -> Option<LangValueV> {
    if vars.contains_key(name) {
        Some(vars[name])
    } else {
        None
    }
}

/// A value found, taken by its view.
pub open spec fn found_view(r: Option<LangValue>) -> Option<LangValueV> {
    match r {
        Some(v) => Some(v@),
        None => None,
    }
}

/// The global variables of one running module.
pub struct ModuleScope {
    pub uid: ModuleUID,
    pub variables: Vec<(String, LangValue)>,
}

impl View for ModuleScope {
    type V = Map<Seq<char>, LangValueV>;

    open spec fn view(&self) -> Map<Seq<char>, LangValueV> {
        fields_view(self.variables@)
    }
}

/// A module of the interpreter: its identifier and its global variables.
pub struct InterpreterModule {
    pub uid: ModuleUID,
    pub scope: Arc<ModuleScope>,
}

/// Every module of the store is held under the identifier of its variables.
pub open spec fn store_consistent(store: Map<u64, InterpreterModule>) -> bool {
    forall|k: u64| #[trigger] store.contains_key(k) ==> store[k].scope.uid.0 == k
}

/// What variable `name` of module `module` is, seen from the module `own`: its own variables for
/// its own identifier, else those of the module of the store under that identifier.
pub open spec fn module_var(own: ModuleScope, store: Map<u64, InterpreterModule>, module: u64, name: Seq<char>) -> Option<LangValueV> {
    if module == own.uid.0 {
        var_lookup(own@, name)
    } else if store.contains_key(module) {
        var_lookup(store[module].scope@, name)
    } else {
        None
    }
}

impl ModuleScope {
    /// No variable is held twice.
    pub open spec fn wf(&self) -> bool {
        unique_names(self.variables@)
    }

    /// The variables of module `uid`, with none yet.
    pub fn new(uid: ModuleUID) -> (r: ModuleScope)
        ensures
            r.uid == uid,
            r.wf(),
            r@ == Map::<Seq<char>, LangValueV>::empty(),
    {
        let r = ModuleScope { uid, variables: Vec::new() };
        proof {
            assert(crate::named::names_of(r.variables@) =~= Seq::<Seq<char>>::empty());
        }
        r
    }

    /// Gives variable `name` the value `value`, declaring it if it is new.
    pub fn set_var(&mut self, name: String, value: LangValue)
        requires
            old(self).wf(),
        ensures
            final(self).wf(),
            final(self).uid == old(self).uid,
            final(self)@ == old(self)@.insert(name@, value@),
    {
        let ghost before = self.variables@;
        let ghost k = name@;
        let ghost vv = value@;
        named_set(&mut self.variables, name, value);
        proof {
            lemma_fields_view(before);
            lemma_fields_view(self.variables@);
            assert(self@ =~= old(self)@.insert(k, vv));
        }
    }

    /// The value of variable `name`, if this module has one.
    pub fn get_var(&self, name: &String) -> (r: Option<LangValue>)
        ensures
            found_view(r) == var_lookup(self@, name@),
    {
        proof {
            lemma_fields_view(self.variables@);
        }
        match named_get(&self.variables, name) {
            Some(value) => Some(value.clone_value()),
            None => None,
        }
    }

    /// The value of variable `name` of module `module`: one of this module's own for its own
    /// identifier, else one of the module that the store holds under that identifier.
    pub fn search_var(&self, store: &ModuleStore<InterpreterModule>, module: ModuleUID, name: &String) -> (r: Option<LangValue>)
        requires
            store_consistent(store.view_map()),
        ensures
            found_view(r) == module_var(*self, store.view_map(), module.0, name@),
        decreases if module.0 == self.uid.0 { 0nat } else { 1nat },
    {
        if module.0 == self.uid.0 {
            self.get_var(name)
        } else {
            match store.get(module) {
                Some(m) => {
                    proof {
                        assert(store.view_map().contains_key(module.0));
                    }
                    m.scope.search_var(store, module, name)
                },
                None => None,
            }
        }
    }
}

/// Where a scope looks for a name that none of its blocks declares.
pub enum Parent {
    Module(Arc<ModuleScope>),
    Root,
}

/// The variables of running code: the blocks that enclose the current point, outermost first,
/// each holding the variables declared in it, over the module that the code belongs to.
pub struct Scope {
    pub parent: Parent,
    pub frames: Vec<Vec<(String, LangValue)>>,
}

/// The blocks of a scope, each read as a map.
pub open spec fn frames_maps(frames: Seq<Vec<(String, LangValue)>>) -> Seq<Map<Seq<char>, LangValueV>> {
    frames.map_values(|f: Vec<(String, LangValue)>| fields_view(f@))
}

/// The innermost block that declares `name`.
pub open spec fn innermost(frames: Seq<Map<Seq<char>, LangValueV>>, name: Seq<char>) -> Option<int>
    decreases frames.len(),
{
    if frames.len() == 0 {
        None
    } else if frames.last().contains_key(name) {
        Some(frames.len() - 1)
    } else {
        innermost(frames.drop_last(), name)
    }
}

/// The value of `name` in the innermost block that declares it.
pub open spec fn frames_get(frames: Seq<Map<Seq<char>, LangValueV>>, name: Seq<char>) -> Option<LangValueV> {
    match innermost(frames, name) {
        Some(i) => Some(frames[i][name]),
        None => None,
    }
}

/// The blocks after `name` is declared with `value` in the innermost one.
pub open spec fn frames_declare(frames: Seq<Map<Seq<char>, LangValueV>>, name: Seq<char>, value: LangValueV) -> Seq<Map<Seq<char>, LangValueV>> {
    frames.update(frames.len() - 1, frames.last().insert(name, value))
}

/// The blocks after `name` is given `value` in the innermost block that declares it; unchanged
/// where none does.
pub open spec fn frames_assign(frames: Seq<Map<Seq<char>, LangValueV>>, name: Seq<char>, value: LangValueV) -> Seq<Map<Seq<char>, LangValueV>> {
    match innermost(frames, name) {
        Some(i) => frames.update(i, frames[i].insert(name, value)),
        None => frames,
    }
}

proof fn lemma_innermost(frames: Seq<Map<Seq<char>, LangValueV>>, name: Seq<char>)
    ensures
        innermost(frames, name) matches Some(i) ==> 0 <= i < frames.len() && frames[i].contains_key(name)
            && forall|j: int| i < j < frames.len() ==> !(#[trigger] frames[j]).contains_key(name),
        innermost(frames, name) is None ==> forall|j: int| 0 <= j < frames.len() ==> !(#[trigger] frames[j]).contains_key(name),
    decreases frames.len(),
{
    if frames.len() > 0 {
        lemma_innermost(frames.drop_last(), name);
        assert forall|j: int| 0 <= j < frames.len() - 1 implies #[trigger] frames[j] == frames.drop_last()[j] by {}
    }
}

/// The innermost block that declares a name is found by looking from the innermost block out.
proof fn lemma_innermost_from(frames: Seq<Map<Seq<char>, LangValueV>>, name: Seq<char>, k: int)
    requires
        0 <= k <= frames.len(),
        forall|j: int| k <= j < frames.len() ==> !(#[trigger] frames[j]).contains_key(name),
    ensures
        innermost(frames, name) == innermost(frames.take(k), name),
    decreases frames.len() - k,
{
    if k < frames.len() {
        assert(frames.drop_last().take(k) == frames.take(k));
        lemma_innermost_from(frames.drop_last(), name, k);
    } else {
        assert(frames.take(k) == frames);
    }
}

impl Scope {
    /// The blocks, each read as a map.
    pub open spec fn frames_v(&self) -> Seq<Map<Seq<char>, LangValueV>> {
        frames_maps(self.frames@)
    }

    /// There is a block, and no block holds a variable twice.
    pub open spec fn wf(&self) -> bool {
        &&& self.frames@.len() > 0
        &&& forall|i: int| 0 <= i < self.frames@.len() ==> unique_names(#[trigger] self.frames@[i]@)
    }

    /// What `name` is for code of module `module`: the innermost block that declares it, else what
    /// the module of this scope gives.
    pub open spec fn lookup(&self, store: Map<u64, InterpreterModule>, module: u64, name: Seq<char>) -> Option<LangValueV> {
        match frames_get(self.frames_v(), name) {
            Some(v) => Some(v),
            None => match self.parent {
                Parent::Module(m) => module_var(*m, store, module, name),
                Parent::Root => None,
            },
        }
    }

    /// A scope with one empty block and nothing over it.
    pub fn new() -> (r: Scope)
        ensures
            r.wf(),
            r.parent is Root,
            r.frames_v() == seq![Map::<Seq<char>, LangValueV>::empty()],
    {
        let mut frames: Vec<Vec<(String, LangValue)>> = Vec::new();
        frames.push(Vec::new());
        let r = Scope { parent: Parent::Root, frames };
        proof {
            assert(crate::named::names_of(r.frames@[0]@) =~= Seq::<Seq<char>>::empty());
            assert(r.frames_v() =~= seq![Map::<Seq<char>, LangValueV>::empty()]);
        }
        r
    }

    /// A scope with one empty block over the variables of `module`.
    pub fn new_module_child(module: Arc<ModuleScope>) -> (r: Scope)
        ensures
            r.wf(),
            r.parent == Parent::Module(module),
            r.frames_v() == seq![Map::<Seq<char>, LangValueV>::empty()],
    {
        let mut frames: Vec<Vec<(String, LangValue)>> = Vec::new();
        frames.push(Vec::new());
        let r = Scope { parent: Parent::Module(module), frames };
        proof {
            assert(crate::named::names_of(r.frames@[0]@) =~= Seq::<Seq<char>>::empty());
            assert(r.frames_v() =~= seq![Map::<Seq<char>, LangValueV>::empty()]);
        }
        r
    }

    /// Opens a new, empty block inside the current one.
    pub fn new_child(&mut self)
        requires
            old(self).wf(),
        ensures
            final(self).wf(),
            final(self).parent == old(self).parent,
            final(self).frames_v() == old(self).frames_v().push(Map::<Seq<char>, LangValueV>::empty()),
    {
        let f: Vec<(String, LangValue)> = Vec::new();
        proof {
            assert(crate::named::names_of(f@) =~= Seq::<Seq<char>>::empty());
        }
        self.frames.push(f);
        proof {
            assert(self.frames_v() =~= old(self).frames_v().push(Map::<Seq<char>, LangValueV>::empty()));
        }
    }

    /// Closes the current block, and with it the variables declared in it.
    pub fn close_child(&mut self)
        requires
            old(self).wf(),
            old(self).frames@.len() > 1,
        ensures
            final(self).wf(),
            final(self).parent == old(self).parent,
            final(self).frames_v() == old(self).frames_v().drop_last(),
    {
        self.frames.pop();
        proof {
            assert(self.frames_v() =~= old(self).frames_v().drop_last());
        }
    }

    /// Declares variable `name` with `value` in the current block.
    pub fn declare_var(&mut self, name: String, value: LangValue)
        requires
            old(self).wf(),
        ensures
            final(self).wf(),
            final(self).parent == old(self).parent,
            final(self).frames_v() == frames_declare(old(self).frames_v(), name@, value@),
    {
        let last = self.frames.len() - 1;
        let ghost before = self.frames@[last as int]@;
        let ghost k = name@;
        let ghost vv = value@;
        named_set(&mut self.frames[last], name, value);
        proof {
            lemma_fields_view(before);
            lemma_fields_view(self.frames@[last as int]@);
            assert(fields_view(self.frames@[last as int]@) =~= fields_view(before).insert(k, vv));
            assert(self.frames_v() =~= frames_declare(old(self).frames_v(), k, vv));
        }
    }

    /// Finds the innermost block that declares `name`.
    fn find_frame(&self, name: &String) -> (r: Option<usize>)
        ensures
            r matches Some(i) ==> innermost(self.frames_v(), name@) == Some(i as int) && i < self.frames@.len(),
            r is None ==> innermost(self.frames_v(), name@) is None,
    {
        let mut i = self.frames.len();
        while i > 0
            invariant
                i <= self.frames@.len(),
                forall|j: int| i <= j < self.frames@.len() ==> !(#[trigger] self.frames_v()[j]).contains_key(name@),
            decreases i,
        {
            let k = i - 1;
            proof {
                lemma_fields_view(self.frames@[k as int]@);
            }
            if named_get(&self.frames[k], name).is_some() {
                proof {
                    lemma_innermost_from(self.frames_v(), name@, k + 1);
                    let t = self.frames_v().take(k + 1);
                    assert(t.last() == self.frames_v()[k as int]);
                }
                return Some(k);
            }
            i = k;
        }
        proof {
            lemma_innermost_from(self.frames_v(), name@, 0);
        }
        None
    }

    /// The value of `name` for code of module `module`: from the innermost block that declares it,
    /// else from the module of this scope, which may look in the store.
    pub fn get_var(&self, store: &ModuleStore<InterpreterModule>, module: ModuleUID, name: &String) -> (r: Option<LangValue>)
        requires
            store_consistent(store.view_map()),
        ensures
            found_view(r) == self.lookup(store.view_map(), module.0, name@),
    {
        match self.find_frame(name) {
            Some(i) => {
                proof {
                    lemma_fields_view(self.frames@[i as int]@);
                    lemma_innermost(self.frames_v(), name@);
                }
                match named_get(&self.frames[i], name) {
                    Some(value) => Some(value.clone_value()),
                    None => None,
                }
            },
            None => match &self.parent {
                Parent::Module(m) => m.search_var(store, module, name),
                Parent::Root => None,
            },
        }
    }

    /// Gives variable `name` the value `value` in the innermost block that declares it. It tells
    /// whether the current block declares it or the scope has an outer block; a variable that only
    /// the module holds is left unchanged.
    pub fn set_var(&mut self, name: &String, value: LangValue) -> (r: bool)
        requires
            old(self).wf(),
        ensures
            final(self).wf(),
            final(self).parent == old(self).parent,
            final(self).frames_v() == frames_assign(old(self).frames_v(), name@, value@),
            r == (old(self).frames_v().last().contains_key(name@) || old(self).frames@.len() > 1),
    {
        let ghost fv = self.frames_v();
        let ghost vv = value@;
        let n = self.frames.len();
        let last_has = {
            proof {
                lemma_fields_view(self.frames@[n - 1]@);
            }
            named_get(&self.frames[n - 1], name).is_some()
        };
        proof {
            lemma_innermost(fv, name@);
        }
        match self.find_frame(name) {
            Some(i) => {
                let ghost before = self.frames@[i as int]@;
                named_set(&mut self.frames[i], name.clone(), value);
                proof {
                    lemma_fields_view(before);
                    lemma_fields_view(self.frames@[i as int]@);
                    assert(fields_view(self.frames@[i as int]@) =~= fields_view(before).insert(name@, vv));
                    assert(self.frames_v() =~= frames_assign(fv, name@, vv));
                }
            },
            None => {},
        }
        last_has || n > 1
    }
}

/// Blocks that declare a name in the same places have the same innermost block for it.
proof fn lemma_innermost_same(f: Seq<Map<Seq<char>, LangValueV>>, g: Seq<Map<Seq<char>, LangValueV>>, name: Seq<char>)
    requires
        f.len() == g.len(),
        forall|j: int| 0 <= j < f.len() ==> (#[trigger] f[j]).contains_key(name) == g[j].contains_key(name),
    ensures
        innermost(f, name) == innermost(g, name),
    decreases f.len(),
{
    if f.len() > 0 {
        assert forall|j: int| 0 <= j < f.len() - 1 implies (#[trigger] f.drop_last()[j]).contains_key(name) == g.drop_last()[j].contains_key(name) by {
            assert(f.drop_last()[j] == f[j]);
            assert(g.drop_last()[j] == g[j]);
        }
        lemma_innermost_same(f.drop_last(), g.drop_last(), name);
        assert(f.last().contains_key(name) == g.last().contains_key(name));
    }
}

/// A variable declared in the current block is what the scope then gives for it, and the other
/// names keep what they gave.
pub proof fn law_scope_get_after_declare(frames: Seq<Map<Seq<char>, LangValueV>>, name: Seq<char>, value: LangValueV, other: Seq<char>)
    requires
        frames.len() > 0,
    ensures
        frames_get(frames_declare(frames, name, value), name) == Some(value),
        other != name ==> frames_get(frames_declare(frames, name, value), other) == frames_get(frames, other),
{
    let d = frames_declare(frames, name, value);
    assert(d.last().contains_key(name));
    if other != name {
        assert forall|j: int| 0 <= j < d.len() implies (#[trigger] d[j]).contains_key(other) == frames[j].contains_key(other) by {}
        lemma_innermost_same(d, frames, other);
        lemma_innermost(frames, other);
    }
}

/// A variable that some block declares is, after it is given a value, what the scope gives for it;
/// the other names keep what they gave.
pub proof fn law_scope_get_after_assign(frames: Seq<Map<Seq<char>, LangValueV>>, name: Seq<char>, value: LangValueV, other: Seq<char>)
    requires
        frames_get(frames, name) is Some,
    ensures
        frames_get(frames_assign(frames, name, value), name) == Some(value),
        other != name ==> frames_get(frames_assign(frames, name, value), other) == frames_get(frames, other),
{
    let a = frames_assign(frames, name, value);
    lemma_innermost(frames, name);
    let i = innermost(frames, name)->Some_0;
    assert forall|j: int| 0 <= j < a.len() implies (#[trigger] a[j]).contains_key(name) == frames[j].contains_key(name) by {}
    lemma_innermost_same(a, frames, name);
    if other != name {
        assert forall|j: int| 0 <= j < a.len() implies (#[trigger] a[j]).contains_key(other) == frames[j].contains_key(other) by {}
        lemma_innermost_same(a, frames, other);
        lemma_innermost(frames, other);
    }
}

/// Opening a block changes what no name gives, and closing it again gives back the blocks that
/// were there.
pub proof fn law_scope_child_keeps_lookups(frames: Seq<Map<Seq<char>, LangValueV>>, name: Seq<char>)
    ensures
        frames_get(frames.push(Map::<Seq<char>, LangValueV>::empty()), name) == frames_get(frames, name),
        frames.push(Map::<Seq<char>, LangValueV>::empty()).drop_last() == frames,
{
    let p = frames.push(Map::<Seq<char>, LangValueV>::empty());
    assert(p.drop_last() == frames);
    assert(!p.last().contains_key(name));
    lemma_innermost(frames, name);
}

/// A variable that a module sets is what a search of that module's own identifier finds, and the
/// other names keep what they gave.
pub proof fn law_module_var_after_set(own: ModuleScope, after: ModuleScope, store: Map<u64, InterpreterModule>, name: Seq<char>, value: LangValueV, other: Seq<char>)
    requires
        after.uid == own.uid,
        after@ == own@.insert(name, value),
    ensures
        module_var(after, store, own.uid.0, name) == Some(value),
        other != name ==> module_var(after, store, own.uid.0, other) == module_var(own, store, own.uid.0, other),
{
}

} // verus!
