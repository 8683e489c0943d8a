use vstd::prelude::*;
use std::sync::Arc;
use crate::class::ClassTypeV;
use crate::class::ClassType;
use crate::module::{Module, ModuleFeature, ModuleUID, share};
use crate::module_preparser::ParsableModule;
use crate::parsing_types::{ParsableFunctionType, ParsableType, ParsableTypeV, declared_form, declared_forms, ptypes_view};
use crate::types::types_view;

verus! {

broadcast use vstd::std_specs::vec::axiom_spec_len;

/// The modules that were loaded, by identifier.
pub struct ModuleLoader {
    pub modules: Vec<(ModuleUID, Arc<Module>)>,
}

/// The index of the module loaded last under `uid`.
pub open spec fn loaded_index(s: Seq<(ModuleUID, Arc<Module>)>, uid: u64) -> Option<int>
    decreases s.len(),
{
    if s.len() == 0 {
        None
    } else if s.last().0.0 == uid {
        Some(s.len() - 1)
    } else {
        loaded_index(s.drop_last(), uid)
    }
}

impl ModuleLoader {
    /// The module loaded under `uid`, if there is one.
    pub open spec fn loaded(&self, uid: ModuleUID) -> Option<Arc<Module>> {
        match loaded_index(self.modules@, uid.0) {
            Some(i) => Some(self.modules@[i].1),
            None => None,
        }
    }

    /// A loader that holds no module.
    pub fn new() -> (r: ModuleLoader)
        ensures
            forall|u: ModuleUID| #[trigger] r.loaded(u) is None,
    {
        ModuleLoader { modules: Vec::new() }
    }

    /// Records `module` as the module loaded under `uid`.
    pub fn insert_module(&mut self, uid: ModuleUID, module: Arc<Module>)
        ensures
            final(self).loaded(uid) == Some(module),
            forall|u: ModuleUID| u.0 != uid.0 ==> #[trigger] final(self).loaded(u) == old(self).loaded(u),
    {
        let ghost before = self.modules@;
        self.modules.push((uid, module));
        proof {
            assert(self.modules@.drop_last() == before);
            assert forall|u: ModuleUID| u.0 != uid.0 implies #[trigger] self.loaded(u) == old(self).loaded(u) by {
                lemma_loaded_index_bound(before, u.0);
                if let Some(i) = loaded_index(before, u.0) {
                    assert(self.modules@[i] == before[i]);
                }
            }
        }
    }

    /// The module loaded under `uid`, if there is one.
    pub fn get_module(&self, uid: ModuleUID) -> (r: Option<Arc<Module>>)
        ensures
            r == self.loaded(uid),
    {
        let mut i = self.modules.len();
        proof {
            assert(self.modules@.take(i as int) =~= self.modules@);
        }
        while i > 0
            invariant
                i <= self.modules@.len(),
                loaded_index(self.modules@, uid.0) == loaded_index(self.modules@.take(i as int), uid.0),
            decreases i,
        {
            let k = i - 1;
            proof {
                let t = self.modules@.take(i as int);
                assert(t.last() == self.modules@[k as int]);
                assert(t.drop_last() == self.modules@.take(k as int));
            }
            if self.modules[k].0.0 == uid.0 {
                return Some(share(&self.modules[k].1));
            }
            i = k;
        }
        proof {
            assert(self.modules@.take(0) =~= Seq::<(ModuleUID, Arc<Module>)>::empty());
        }
        None
    }
}

proof fn lemma_loaded_index_bound(s: Seq<(ModuleUID, Arc<Module>)>, uid: u64)
    ensures
        loaded_index(s, uid) matches Some(i) ==> 0 <= i < s.len(),
    decreases s.len(),
{
    if s.len() > 0 {
        lemma_loaded_index_bound(s.drop_last(), uid);
    }
}

/// What a global name of a module declares, with its type as written in a declaration.
pub enum GlobalDeclarationKind {
    Var(ParsableType),
    Func(ParsableFunctionType),
    Class(ClassType),
}

pub enum GlobalDeclarationV {
    Var(ParsableTypeV),
    Func(Seq<ParsableTypeV>, ParsableTypeV),
    Class(ClassTypeV),
}

impl View for GlobalDeclarationKind {
    type V = GlobalDeclarationV;

    open spec fn view(&self) -> GlobalDeclarationV {
        match self {
            GlobalDeclarationKind::Var(t) => GlobalDeclarationV::Var(t@),
            GlobalDeclarationKind::Func(f) => GlobalDeclarationV::Func(ptypes_view(f.0@), (*f.1)@),
            GlobalDeclarationKind::Class(c) => GlobalDeclarationV::Class(c@),
        }
    }
}

/// The declarations of a prepared module: its functions, then its variables.
pub open spec fn parsable_declarations(m: ParsableModule) -> Seq<(Seq<char>, GlobalDeclarationV)> {
    m.functions@.map_values(|p: (String, crate::module_preparser::ParsableFunction)|
        (p.0@, GlobalDeclarationV::Func(ptypes_view(p.1.func_type.0@), (*p.1.func_type.1)@)))
    + m.variables@.map_values(|p: (String, crate::module_preparser::ParsableVariable)|
        (p.0@, GlobalDeclarationV::Var(p.1.type_kind@)))
}

/// The declarations of a parsed module: each of its features, in the declared form of its type.
pub open spec fn module_declarations(m: Module) -> Seq<(Seq<char>, GlobalDeclarationV)> {
    m.features@.map_values(|p: (String, ModuleFeature)| (p.0@, match p.1 {
        ModuleFeature::Function(f) => GlobalDeclarationV::Func(
            declared_forms(types_view(f.metadata.0@)), declared_form((*f.metadata.1)@)),
        ModuleFeature::Variable(v) => GlobalDeclarationV::Var(declared_form(v.metadata@)),
        ModuleFeature::Class(c) => GlobalDeclarationV::Class(c.metadata@),
    }))
}

/// The declarations of a list of named declarations.
pub open spec fn decls_view(s: Seq<(String, GlobalDeclarationKind)>) -> Seq<(Seq<char>, GlobalDeclarationV)> {
    s.map_values(|p: (String, GlobalDeclarationKind)| (p.0@, p.1@))
}

/// The index of the first prepared module with identifier `uid`.
pub open spec fn first_module(s: Seq<(ModuleUID, ParsableModule)>, uid: u64) -> Option<int>
    decreases s.len(),
{
    if s.len() == 0 {
        None
    } else if s[0].0.0 == uid {
        Some(0)
    } else {
        match first_module(s.drop_first(), uid) {
            Some(i) => Some(i + 1),
            None => None,
        }
    }
}

/// The modules that a module being loaded depends on, prepared but not parsed yet, over the
/// modules loaded before.
pub struct ModuleLoaderContext<'a> {
    pub module_loader: &'a ModuleLoader,
    pub modules: Vec<(ModuleUID, ParsableModule)>,
}

impl<'a> ModuleLoaderContext<'a> {
    /// The declarations of module `module_uid`: those of the prepared module, or else those of
    /// the loaded module, or else none.
    pub fn get_declarations(&self, module_uid: ModuleUID) -> (r: Vec<(String, GlobalDeclarationKind)>)
        ensures
            decls_view(r@) == match first_module(self.modules@, module_uid.0) {
                Some(i) => parsable_declarations(self.modules@[i].1),
                None => match self.module_loader.loaded(module_uid) {
                    Some(m) => module_declarations(*m),
                    None => Seq::empty(),
                },
            },
    {
        let found = self.find_module(module_uid);
        let mut r: Vec<(String, GlobalDeclarationKind)> = Vec::new();
        match found {
            Some(k) => {
                let module = &self.modules[k].1;
                let mut j: usize = 0;
                while j < module.functions.len()
                    invariant
                        j <= module.functions@.len(),
                        decls_view(r@) == parsable_declarations(*module).take(j as int),
                    decreases module.functions@.len() - j,
                {
                    let (name, func) = (&module.functions[j].0, &module.functions[j].1);
                    let x = (name.clone(), GlobalDeclarationKind::Func(func.func_type.clone_pfn_type()));
                    let ghost before = r@;
                    let ghost xv = (x.0@, x.1@);
                    r.push(x);
                    proof {
                        let pd = parsable_declarations(*module);
                        assert(decls_view(r@) =~= decls_view(before).push(xv));
                        assert(pd[j as int] == xv);
                        assert(pd.take(j + 1) =~= pd.take(j as int).push(pd[j as int]));
                    }
                    j = j + 1;
                }
                let nf = module.functions.len();
                let mut j: usize = 0;
                while j < module.variables.len()
                    invariant
                        j <= module.variables@.len(),
                        nf == module.functions@.len(),
                        decls_view(r@) == parsable_declarations(*module).take(nf + j),
                    decreases module.variables@.len() - j,
                {
                    let (name, var) = (&module.variables[j].0, &module.variables[j].1);
                    let x = (name.clone(), GlobalDeclarationKind::Var(var.type_kind.clone_ptype()));
                    let ghost before = r@;
                    let ghost xv = (x.0@, x.1@);
                    r.push(x);
                    proof {
                        let pd = parsable_declarations(*module);
                        assert(decls_view(r@) =~= decls_view(before).push(xv));
                        assert(pd[nf + j] == xv);
                        assert(pd.take(nf + j + 1) =~= pd.take(nf + j).push(pd[nf + j]));
                    }
                    j = j + 1;
                }
                proof {
                    assert(parsable_declarations(*module).take(nf + module.variables@.len()) =~= parsable_declarations(*module));
                }
            },
            None => {
                match self.module_loader.get_module(module_uid) {
                    Some(module) => {
                        let mut j: usize = 0;
                        while j < module.features.len()
                            invariant
                                j <= module.features@.len(),
                                decls_view(r@) == module_declarations(*module).take(j as int),
                            decreases module.features@.len() - j,
                        {
                            let name = module.features[j].0.clone();
                            let decl = match &module.features[j].1 {
                                ModuleFeature::Function(func) =>
                                    GlobalDeclarationKind::Func(ParsableFunctionType::from_function_type(&func.metadata)),
                                ModuleFeature::Variable(var) =>
                                    GlobalDeclarationKind::Var(ParsableType::from_type_kind(&var.metadata)),
                                ModuleFeature::Class(class) =>
                                    GlobalDeclarationKind::Class(class.metadata.clone_class()),
                            };
                            let ghost before = r@;
                            let ghost xv = (name@, decl@);
                            r.push((name, decl));
                            proof {
                                assert(decls_view(r@) =~= decls_view(before).push(xv));
                                assert(module_declarations(*module)[j as int] == xv);
                                assert(module_declarations(*module).take(j + 1)
                                    =~= module_declarations(*module).take(j as int).push(module_declarations(*module)[j as int]));
                            }
                            j = j + 1;
                        }
                        proof {
                            assert(module_declarations(*module).take(module.features@.len() as int) =~= module_declarations(*module));
                        }
                    },
                    None => {
                        proof {
                            assert(decls_view(r@) =~= Seq::<(Seq<char>, GlobalDeclarationV)>::empty());
                        }
                    },
                }
            },
        }
        r
    }
}

impl<'a> ModuleLoaderContext<'a> {
    /// The index of the first prepared module with identifier `uid`.
    fn find_module(&self, uid: ModuleUID) -> (r: Option<usize>)
        ensures
            match r {
                Some(k) => first_module(self.modules@, uid.0) == Some(k as int) && k < self.modules@.len(),
                None => first_module(self.modules@, uid.0) is None,
            },
    {
        proof {
            lemma_first_module(self.modules@, uid.0);
        }
        let mut i: usize = 0;
        while i < self.modules.len()
            invariant
                i <= self.modules@.len(),
                forall|j: int| 0 <= j < i ==> #[trigger] self.modules@[j].0.0 != uid.0,
                first_module(self.modules@, uid.0) matches Some(k) ==> 0 <= k < self.modules@.len()
                    && self.modules@[k].0.0 == uid.0 && forall|j: int| 0 <= j < k ==> #[trigger] self.modules@[j].0.0 != uid.0,
                first_module(self.modules@, uid.0) is None ==> forall|j: int| 0 <= j < self.modules@.len() ==> #[trigger] self.modules@[j].0.0 != uid.0,
            decreases self.modules@.len() - i,
        {
            if self.modules[i].0.0 == uid.0 {
                return Some(i);
            }
            i = i + 1;
        }
        None
    }
}

proof fn lemma_first_module(s: Seq<(ModuleUID, ParsableModule)>, uid: u64)
    ensures
        first_module(s, uid) matches Some(i) ==> 0 <= i < s.len() && s[i].0.0 == uid
            && forall|j: int| 0 <= j < i ==> #[trigger] s[j].0.0 != uid,
        first_module(s, uid) is None ==> forall|j: int| 0 <= j < s.len() ==> #[trigger] s[j].0.0 != uid,
    decreases s.len(),
{
    if s.len() > 0 {
        lemma_first_module(s.drop_first(), uid);
        assert forall|j: int| 0 < j < s.len() implies #[trigger] s[j] == s.drop_first()[j - 1] by {}
    }
}

} // verus!
