use vstd::prelude::*;
use crate::ast::{ASTBody, Function};
use crate::class::{ClassType, ClassTypeV};
use crate::errors::{BuildErrorKind, LangError, LoadErrorKind, ParserErrorKind, end_of_file_error};
use crate::module::{
    Class, ClassDefinition, FunctionDefinition, Module, ModuleFeature, ModuleIdentifier, ModuleUID, VariableDefinition,
    find_last_named,
};
use crate::module_preparser::{ParsableClass, ParsableFunction, ParsableModule, ParsableVariable};
use crate::module_scope::{GlobalV, ParserModuleScope, ScopeGetResult, ScopeGetV, convert_fn_spec, convert_spec, decls_map, global_get, lemma_globals_view, unknown_type_error};
use crate::parse::{literal_type, literal_type_of};
use crate::scope_building::{
    ModuleStateV, class_types_view, classes_spec, fill_fields_spec, fill_methods_spec, fill_spec, funcs_spec, import_classes_spec,
    import_values_spec, lemma_last_class, lemma_last_class_bounds, lemma_state_index, lemma_state_index_bounds, load_classes_spec,
    load_spec, scope_spec, state_index, state_view, store_spec, values_spec, vars_spec, import_error, unexpected_build_error,
};
use crate::parsing_types::{ParsableType, ptypes_view};
use crate::types::compatible;
use std::sync::Arc;
use crate::parser_scope::{FrameV, ParserScope, frame_lookup, frames_lookup};
use crate::parse_spec::{AstV, ErrV, PCtx, body_spec, err_view, nodes_view};
use crate::scope_storage::SCOPE_LIMIT;
use crate::tokens::{LiteralKind, Token, TokenKind, Tokens};
use crate::types::{ClassRef, FunctionType, FunctionTypeV, TypeKind, TypeV, types_view, lemma_types_view_len};
use crate::typing::body_well_typed;
use crate::utils::{TokensExtensions, names_view, token_at, unexpected};

verus! {

broadcast use vstd::std_specs::vec::axiom_spec_len;

/// The name under which a method sees the object that it was called on.
pub const CLASS_SELF_REFERENCE: &'static str = "self";

/// The message of the error for a function with a body whose parameters are not as many as
/// its parameter types.
pub const PARAMS_LENGTH_MESSAGE: &'static str = "parse_function_value: different params lenghts";

/// The message of the error for a module that the parser does not hold.
pub const MODULE_NOT_FOUND_MESSAGE: &'static str = "parse_module: Module not found";

/// How modules are found: the users of the library say how names of modules are resolved and
/// where their code comes from (files, the network, ...).
pub trait ModuleImporter {
    /// Whether this importer resolves `identifier` to `uid`: what its implementation says of
    /// `get_unique_identifier`. The identifier is used to tell whether the same module is loaded
    /// already.
    spec fn resolves(&self, identifier: ModuleIdentifier, uid: Option<ModuleUID>) -> bool;

    /// The unique identifier of the module that `identifier` names, if there is one.
    fn get_unique_identifier(&self, identifier: &ModuleIdentifier) -> (r: Option<ModuleUID>)
        ensures
            self.resolves(*identifier, r),
    ;

    /// The code of the module that `identifier` names, if it can be had.
    fn load_module(&self, identifier: &ModuleIdentifier, declaration: bool) -> Option<String>;
}

/// A module whose declarations are known, with the descriptions of its classes and whether
/// their fields and methods were filled in already.
pub struct ParsingModule {
    pub types: Vec<(String, ClassType)>,
    pub module: ParsableModule,
    pub loaded: bool,
}

/// Turns the declarations of prepared modules into definitions.
pub struct ModuleParser {
    pub modules: Vec<(ModuleUID, ParsingModule)>,
}

/// The index of the module with identifier `uid`: the last one, as a later module with the
/// same identifier replaces an earlier one.
pub open spec fn module_index(s: Seq<(ModuleUID, ParsingModule)>, uid: u64) -> Option<int>
    decreases s.len(),
{
    if s.len() == 0 {
        None
    } else if s.last().0.0 == uid {
        Some(s.len() - 1)
    } else {
        module_index(s.drop_last(), uid)
    }
}

/// The names of a list of named entries.
pub open spec fn entry_names<T>(s: Seq<(String, T)>) -> Seq<Seq<char>> {
    s.map_values(|p: (String, T)| p.0@)
}

/// Two lists of modules hold the same modules, with the same class names; only the class
/// descriptions and the loaded flags may differ.
pub open spec fn same_modules(a: Seq<(ModuleUID, ParsingModule)>, b: Seq<(ModuleUID, ParsingModule)>) -> bool {
    &&& a.len() == b.len()
    &&& forall|i: int| 0 <= i < a.len() ==> {
        &&& (#[trigger] a[i]).0 == b[i].0
        &&& a[i].1.module == b[i].1.module
        &&& entry_names(a[i].1.types@) == entry_names(b[i].1.types@)
    }
}

/// A class description with no fields and no methods yet.
pub open spec fn empty_class_of(name: Seq<char>, module: u64, kind: crate::types::ClassKind) -> crate::class::ClassTypeV {
    crate::class::ClassTypeV { name, module, kind, fields: Seq::empty(), methods: Seq::empty() }
}

/// The literal that stands at `pos`, if one does.
pub open spec fn literal_at(toks: Seq<Token>, pos: nat) -> Option<LiteralKind> {
    match token_at(toks, pos) {
        Some(t) => match t.kind {
            TokenKind::Literal(l) => Some(l),
            _ => None,
        },
        None => None,
    }
}

/// Each body of the module starts at a token, and each function body has room in a scope for
/// its parameters and one declaration per token.
pub open spec fn module_fits(m: ParsableModule) -> bool {
    let n = m.tokens.tokens@.len();
    &&& forall|i: int| 0 <= i < m.variables@.len() ==>
            ((#[trigger] m.variables@[i]).1.body matches Some(b) ==> b.0 < n)
    &&& forall|i: int| 0 <= i < m.functions@.len() ==> function_fits((#[trigger] m.functions@[i]).1, n)
    &&& forall|i: int, j: int| 0 <= i < m.classes@.len() && 0 <= j < m.classes@[i].1.methods@.len() ==>
            function_fits((#[trigger] m.classes@[i].1.methods@[j]).1, n)
}

/// The body of function `f`, if it has one, starts at one of `n` tokens, and a scope has room
/// for its parameters and one declaration per token.
pub open spec fn function_fits(f: ParsableFunction, n: nat) -> bool {
    &&& (f.body matches Some(b) ==> b.0 < n)
    &&& f.params@.len() + n + 1 < SCOPE_LIMIT
}

/// Tells whether function `f` of a module with `n` tokens fits.
fn check_function_fits(f: &ParsableFunction, n: usize) -> (r: bool)
    ensures
        r == function_fits(*f, n as nat),
{
    let body_fits = match f.body {
        Some(b) => b.0 < n,
        None => true,
    };
    body_fits && n < SCOPE_LIMIT - 1 && f.params.len() < SCOPE_LIMIT - 1 - n
}

/// Tells whether module `m` fits.
fn check_module_fits(m: &ParsableModule) -> (r: bool)
    ensures
        r == module_fits(*m),
{
    let n = m.tokens.tokens.len();
    let mut i: usize = 0;
    while i < m.variables.len()
        invariant
            n == m.tokens.tokens@.len(),
            i <= m.variables@.len(),
            forall|t: int| 0 <= t < i ==> ((#[trigger] m.variables@[t]).1.body matches Some(b) ==> b.0 < n),
        decreases m.variables@.len() - i,
    {
        match m.variables[i].1.body {
            Some(b) => if b.0 >= n {
                return false;
            },
            None => {},
        }
        i = i + 1;
    }
    let mut i: usize = 0;
    while i < m.functions.len()
        invariant
            n == m.tokens.tokens@.len(),
            i <= m.functions@.len(),
            forall|t: int| 0 <= t < i ==> function_fits((#[trigger] m.functions@[t]).1, n as nat),
        decreases m.functions@.len() - i,
    {
        if !check_function_fits(&m.functions[i].1, n) {
            return false;
        }
        i = i + 1;
    }
    let mut i: usize = 0;
    while i < m.classes.len()
        invariant
            n == m.tokens.tokens@.len(),
            i <= m.classes@.len(),
            forall|t: int, j: int| 0 <= t < i && 0 <= j < m.classes@[t].1.methods@.len() ==>
                function_fits((#[trigger] m.classes@[t].1.methods@[j]).1, n as nat),
        decreases m.classes@.len() - i,
    {
        let methods = &m.classes[i].1.methods;
        let mut j: usize = 0;
        while j < methods.len()
            invariant
                n == m.tokens.tokens@.len(),
                i < m.classes@.len(),
                *methods == m.classes@[i as int].1.methods,
                j <= methods@.len(),
                forall|t: int| 0 <= t < j ==> function_fits((#[trigger] methods@[t]).1, n as nat),
            decreases methods@.len() - j,
        {
            if !check_function_fits(&methods[j].1, n) {
                return false;
            }
            j = j + 1;
        }
        i = i + 1;
    }
    true
}

impl ModuleParser {
    /// Every module fits the limits of a scope.
    pub open spec fn fits(&self) -> bool {
        forall|i: int| 0 <= i < self.modules@.len() ==> module_fits((#[trigger] self.modules@[i]).1.module)
    }

    /// Takes the prepared modules, with a description of each class that has no fields and no
    /// methods yet.
    pub fn new(modules: Vec<ParsableModule>) -> (r: ModuleParser)
        ensures
            r.modules@.len() == modules@.len(),
            forall|i: int| 0 <= i < modules@.len() ==> {
                &&& (#[trigger] r.modules@[i]).0 == modules@[i].uid
                &&& r.modules@[i].1.module == modules@[i]
                &&& !r.modules@[i].1.loaded
                &&& r.modules@[i].1.types@.len() == modules@[i].classes@.len()
                &&& forall|j: int| 0 <= j < modules@[i].classes@.len() ==> {
                    &&& (#[trigger] r.modules@[i].1.types@[j]).0@ == modules@[i].classes@[j].0@
                    &&& r.modules@[i].1.types@[j].1@ == empty_class_of(
                        modules@[i].classes@[j].1.name@,
                        modules@[i].classes@[j].1.module.0,
                        modules@[i].classes@[j].1.kind,
                    )
                }
            },
    {
        let mut modules = modules;
        let ghost input = modules@;
        assert(input.len() == modules.len());
        let mut parsed: Vec<(ModuleUID, ParsingModule)> = Vec::new();
        let mut k: usize = 0;
        while modules.len() > 0
            invariant
                k + modules@.len() == input.len(),
                input.len() <= usize::MAX,
                parsed@.len() == k,
                modules@ == input.subrange(k as int, input.len() as int),
                forall|i: int| 0 <= i < k ==> {
                    &&& (#[trigger] parsed@[i]).0 == input[i].uid
                    &&& parsed@[i].1.module == input[i]
                    &&& !parsed@[i].1.loaded
                    &&& parsed@[i].1.types@.len() == input[i].classes@.len()
                    &&& forall|j: int| 0 <= j < input[i].classes@.len() ==> {
                        &&& (#[trigger] parsed@[i].1.types@[j]).0@ == input[i].classes@[j].0@
                        &&& parsed@[i].1.types@[j].1@ == empty_class_of(
                            input[i].classes@[j].1.name@,
                            input[i].classes@[j].1.module.0,
                            input[i].classes@[j].1.kind,
                        )
                    }
                },
            decreases modules@.len(),
        {
            let module = modules.remove(0);
            let mut types: Vec<(String, ClassType)> = Vec::new();
            let mut j: usize = 0;
            while j < module.classes.len()
                invariant
                    j <= module.classes@.len(),
                    types@.len() == j,
                    forall|t: int| 0 <= t < j ==> {
                        &&& (#[trigger] types@[t]).0@ == module.classes@[t].0@
                        &&& types@[t].1@ == empty_class_of(
                            module.classes@[t].1.name@,
                            module.classes@[t].1.module.0,
                            module.classes@[t].1.kind,
                        )
                    },
                decreases module.classes@.len() - j,
            {
                let class = &module.classes[j].1;
                let class_type = ClassType {
                    name: class.name.clone(),
                    module: class.module,
                    kind: class.kind,
                    fields: Vec::new(),
                    methods: Vec::new(),
                };
                proof {
                    assert(class_type@.fields =~= Seq::<(Seq<char>, crate::types::TypeV)>::empty());
                    assert(class_type@.methods =~= Seq::<(Seq<char>, crate::types::FunctionTypeV)>::empty());
                }
                types.push((module.classes[j].0.clone(), class_type));
                j = j + 1;
            }
            let uid = module.uid;
            parsed.push((uid, ParsingModule { types, module, loaded: false }));
            k = k + 1;
        }
        ModuleParser { modules: parsed }
    }

    /// Finds the module with identifier `uid`.
    fn find_module(&self, uid: ModuleUID) -> (r: Option<usize>)
        ensures
            match r {
                Some(i) => module_index(self.modules@, uid.0) == Some(i as int) && i < self.modules@.len(),
                None => module_index(self.modules@, uid.0) is None,
            },
    {
        let mut i = self.modules.len();
        proof {
            assert(self.modules@.take(i as int) =~= self.modules@);
        }
        while i > 0
            invariant
                i <= self.modules@.len(),
                module_index(self.modules@, uid.0) == module_index(self.modules@.take(i as int), uid.0),
            decreases i,
        {
            let k = i - 1;
            proof {
                let t = self.modules@.take(i as int);
                assert(t.last() == self.modules@[k as int]);
                assert(t.drop_last() == self.modules@.take(k as int));
            }
            if self.modules[k].0.0 == uid.0 {
                return Some(k);
            }
            i = k;
        }
        proof {
            assert(self.modules@.take(0) =~= Seq::<(ModuleUID, ParsingModule)>::empty());
        }
        None
    }
}

impl ModuleParser {
    /// Records a filled-in class description in the module that owns the class, in place of the
    /// last description of that name.
    fn store_class(&mut self, c: &ClassType)
        ensures
            same_modules(old(self).modules@, final(self).modules@),
            state_view(final(self).modules@) == store_spec(state_view(old(self).modules@), c@),
    {
        let ghost st = state_view(self.modules@);
        proof {
            lemma_state_index(self.modules@, c.module.0);
            lemma_state_index_bounds(st, c.module.0);
        }
        match self.find_module(c.module) {
            Some(i) => {
                proof {
                    lemma_last_class(self.modules@[i as int].1.types@, c.name@);
                    lemma_last_class_bounds(st[i as int].types, c.name@);
                }
                match find_last_named(&self.modules[i].1.types, &c.name) {
                    Some(j) => {
                        let ghost before = self.modules@;
                        let name = self.modules[i].1.types[j].0.clone();
                        self.modules[i].1.types[j] = (name, c.clone_class());
                        proof {
                            assert(entry_names(self.modules@[i as int].1.types@) =~= entry_names(before[i as int].1.types@));
                            assert(class_types_view(self.modules@[i as int].1.types@)
                                =~= st[i as int].types.update(j as int, (st[i as int].types[j as int].0, c@)));
                            assert(state_view(self.modules@) =~= store_spec(st, c@));
                        }
                    },
                    None => {},
                }
            },
            None => {},
        }
    }

    /// Adds to `class` the methods and then the fields that class `i` of module `idx` declares,
    /// with their declared types resolved in `scope`; a type that does not resolve stops it.
    fn fill_class(&self, scope: &ParserModuleScope, idx: usize, i: usize, class: &mut ClassType) -> (r: Result<(), LangError>)
        requires
            idx < self.modules@.len(),
            i < self.modules@[idx as int].1.module.classes@.len(),
        ensures
            (final(class)@, r) == fill_spec(scope.map(), self.modules@[idx as int].1.module.classes@[i as int].1, old(class)@),
            final(class).name == old(class).name,
            final(class).module == old(class).module,
    {
        let pclass = &self.modules[idx].1.module.classes[i].1;
        let ghost m = scope.map();
        let mut k: usize = 0;
        while k < pclass.methods.len()
            invariant
                class.name == old(class).name,
                class.module == old(class).module,
                k <= pclass.methods@.len(),
                m == scope.map(),
                idx < self.modules@.len(),
                i < self.modules@[idx as int].1.module.classes@.len(),
                *pclass == self.modules@[idx as int].1.module.classes@[i as int].1,
                fill_methods_spec(m, pclass.methods@, old(class)@, 0) == fill_methods_spec(m, pclass.methods@, class@, k as nat),
            decreases pclass.methods@.len() - k,
        {
            let func = match scope.convert_parsable_func_type(&pclass.methods[k].1.func_type) {
                Ok(f) => f,
                Err(e) => return Err(e),
            };
            let ghost before = class@;
            let ghost entry = (pclass.methods@[k as int].0@, func@);
            class.methods.push((pclass.methods[k].0.clone(), func));
            proof {
                assert(class@.methods =~= before.methods.push(entry));
            }
            k = k + 1;
        }
        let ghost c1 = class@;
        let mut k: usize = 0;
        while k < pclass.fields.len()
            invariant
                class.name == old(class).name,
                class.module == old(class).module,
                k <= pclass.fields@.len(),
                m == scope.map(),
                idx < self.modules@.len(),
                i < self.modules@[idx as int].1.module.classes@.len(),
                *pclass == self.modules@[idx as int].1.module.classes@[i as int].1,
                fill_methods_spec(m, pclass.methods@, old(class)@, 0) == (c1, Ok::<(), LangError>(())),
                fill_fields_spec(m, pclass.fields@, c1, 0) == fill_fields_spec(m, pclass.fields@, class@, k as nat),
            decreases pclass.fields@.len() - k,
        {
            let field = match scope.convert_parsable_type(&pclass.fields[k].1) {
                Ok(t) => t,
                Err(e) => return Err(e),
            };
            let ghost before = class@;
            let ghost entry = (pclass.fields@[k as int].0@, field@);
            class.fields.push((pclass.fields[k].0.clone(), field));
            proof {
                assert(class@.fields =~= before.fields.push(entry));
            }
            k = k + 1;
        }
        Ok(())
    }

    /// Fills in, once, the fields and methods of the classes of module `idx`, as `scope`
    /// resolves their declared types: each class is declared again in `scope` and recorded in
    /// the module that owns it. Afterwards the module counts as loaded.
    fn load_parsing_module(&mut self, scope: &mut ParserModuleScope, idx: usize) -> (r: Result<(), LangError>)
        requires
            idx < old(self).modules@.len(),
        ensures
            same_modules(old(self).modules@, final(self).modules@),
            final(scope).uid == old(scope).uid,
            (r, final(scope).globals_v(), state_view(final(self).modules@))
                == load_spec(old(scope).globals_v(), state_view(old(self).modules@), old(self).modules@, idx as int),
    {
        let ghost mods = self.modules@;
        let ghost classes = mods[idx as int].1.module.classes@;
        if !self.modules[idx].1.loaded {
            let n = self.modules[idx].1.module.classes.len();
            let mut i: usize = 0;
            while i < n
                invariant
                    same_modules(old(self).modules@, self.modules@),
                    mods == old(self).modules@,
                    !mods[idx as int].1.loaded,
                    classes == mods[idx as int].1.module.classes@,
                    idx < self.modules@.len(),
                    n == classes.len(),
                    i <= n,
                    scope.uid == old(scope).uid,
                    load_classes_spec(old(scope).globals_v(), state_view(mods), classes, 0)
                        == load_classes_spec(scope.globals_v(), state_view(self.modules@), classes, i as nat),
                decreases n - i,
            {
                proof {
                    assert(self.modules@[idx as int].1.module == mods[idx as int].1.module);
                }
                proof {
                    lemma_globals_view(scope.globals@);
                }
                let name = self.modules[idx].1.module.classes[i].0.clone();
                let (class_uid, mut class) = match scope.get(&name) {
                    ScopeGetResult::Class(u, c) => (u, c),
                    _ => return Err(LangError::build(BuildErrorKind::UnexpectedError)),
                };
                let filled = self.fill_class(scope, idx, i, &mut class);
                scope.declare_external_class(name, class_uid, class.clone_class());
                let ghost before = self.modules@;
                self.store_class(&class);
                proof {
                    assert(self.modules@[idx as int].1.module == before[idx as int].1.module);
                }
                match filled {
                    Ok(_) => {},
                    Err(e) => return Err(e),
                }
                i = i + 1;
            }
            let ghost before = self.modules@;
            self.modules[idx].1.loaded = true;
            proof {
                assert(self.modules@[idx as int].1.module == before[idx as int].1.module);
                assert(entry_names(self.modules@[idx as int].1.types@) == entry_names(before[idx as int].1.types@));
                assert(same_modules(old(self).modules@, self.modules@));
                let sb = state_view(before);
                assert(state_view(self.modules@) =~= sb.update(idx as int, ModuleStateV { loaded: true, ..sb[idx as int] }));
            }
        }
        Ok(())
    }
}

impl ModuleParser {
    /// Declares in `scope` the classes of module `m` under identifier `u`, with the descriptions
    /// that the parser holds for them.
    fn declare_classes_of(&self, scope: &mut ParserModuleScope, m: usize, u: ModuleUID) -> (r: Result<(), LangError>)
        requires
            m < self.modules@.len(),
        ensures
            final(scope).uid == old(scope).uid,
            match r {
                Ok(_) => classes_spec(old(scope).globals_v(), self.modules@[m as int].1.module.classes@,
                    class_types_view(self.modules@[m as int].1.types@), u.0, 0) == Ok::<Seq<(Seq<char>, GlobalV)>, LangError>(final(scope).globals_v()),
                Err(e) => classes_spec(old(scope).globals_v(), self.modules@[m as int].1.module.classes@,
                    class_types_view(self.modules@[m as int].1.types@), u.0, 0) == Err::<Seq<(Seq<char>, GlobalV)>, LangError>(e),
            },
    {
        let ghost classes = self.modules@[m as int].1.module.classes@;
        let ghost types = class_types_view(self.modules@[m as int].1.types@);
        let nc = self.modules[m].1.module.classes.len();
        let mut c: usize = 0;
        while c < nc
            invariant
                m < self.modules@.len(),
                classes == self.modules@[m as int].1.module.classes@,
                types == class_types_view(self.modules@[m as int].1.types@),
                nc == classes.len(),
                c <= nc,
                scope.uid == old(scope).uid,
                classes_spec(old(scope).globals_v(), classes, types, u.0, 0) == classes_spec(scope.globals_v(), classes, types, u.0, c as nat),
            decreases nc - c,
        {
            let name = &self.modules[m].1.module.classes[c].0;
            proof {
                lemma_last_class(self.modules@[m as int].1.types@, name@);
                lemma_last_class_bounds(types, name@);
            }
            let t = match find_last_named(&self.modules[m].1.types, name) {
                Some(t) => t,
                None => return Err(LangError::build(BuildErrorKind::UnexpectedError)),
            };
            scope.declare_external_class(name.clone(), u, self.modules[m].1.types[t].1.clone_class());
            c = c + 1;
        }
        Ok(())
    }

    /// Declares in `scope` the variables and then the functions of module `m` under identifier
    /// `u`, with their declared types resolved in the scope as it grows.
    fn declare_values_of(&self, scope: &mut ParserModuleScope, m: usize, u: ModuleUID, external: bool) -> (r: Result<(), LangError>)
        requires
            m < self.modules@.len(),
            !external ==> old(scope).uid == u,
        ensures
            final(scope).uid == old(scope).uid,
            match r {
                Ok(_) => values_spec(old(scope).globals_v(), self.modules@[m as int].1.module, u.0)
                    == Ok::<Seq<(Seq<char>, GlobalV)>, LangError>(final(scope).globals_v()),
                Err(e) => values_spec(old(scope).globals_v(), self.modules@[m as int].1.module, u.0)
                    == Err::<Seq<(Seq<char>, GlobalV)>, LangError>(e),
            },
    {
        let module = &self.modules[m].1.module;
        let ghost m0 = scope.globals_v();
        let mut k: usize = 0;
        while k < module.variables.len()
            invariant
                scope.uid == old(scope).uid,
                !external ==> scope.uid == u,
                k <= module.variables@.len(),
                m < self.modules@.len(),
                *module == self.modules@[m as int].1.module,
                m0 == old(scope).globals_v(),
                vars_spec(m0, module.variables@, u.0, 0) == vars_spec(scope.globals_v(), module.variables@, u.0, k as nat),
            decreases module.variables@.len() - k,
        {
            proof {
                lemma_globals_view(scope.globals@);
            }
            let t = match scope.convert_parsable_type(&module.variables[k].1.type_kind) {
                Ok(t) => t,
                Err(e) => return Err(e),
            };
            if external {
                scope.declare_external_var(module.variables[k].0.clone(), u, t);
            } else {
                scope.declare_var(module.variables[k].0.clone(), t);
            }
            k = k + 1;
        }
        let ghost m1 = scope.globals_v();
        let mut k: usize = 0;
        while k < module.functions.len()
            invariant
                scope.uid == old(scope).uid,
                !external ==> scope.uid == u,
                k <= module.functions@.len(),
                m < self.modules@.len(),
                *module == self.modules@[m as int].1.module,
                m0 == old(scope).globals_v(),
                vars_spec(m0, module.variables@, u.0, 0) == Ok::<Seq<(Seq<char>, GlobalV)>, LangError>(m1),
                funcs_spec(m1, module.functions@, u.0, 0) == funcs_spec(scope.globals_v(), module.functions@, u.0, k as nat),
            decreases module.functions@.len() - k,
        {
            proof {
                lemma_globals_view(scope.globals@);
            }
            let f = match scope.convert_parsable_func_type(&module.functions[k].1.func_type) {
                Ok(f) => f,
                Err(e) => return Err(e),
            };
            if external {
                scope.declare_external_func(module.functions[k].0.clone(), u, f);
            } else {
                scope.declare_func(module.functions[k].0.clone(), f);
            }
            k = k + 1;
        }
        Ok(())
    }

    /// The scope of the globals of module `idx`: its classes, the classes of the modules that it
    /// imports (`resolved` gives their identifiers), its classes filled in, its own variables and
    /// functions, then for each imported module its classes filled in and its values. The classes
    /// of each module in play are filled in once.
    fn create_scope(&mut self, idx: usize, resolved: &Vec<Option<ModuleUID>>) -> (r: Result<ParserModuleScope, LangError>)
        requires
            idx < old(self).modules@.len(),
            resolved@.len() == old(self).modules@[idx as int].1.module.imports@.len(),
        ensures
            same_modules(old(self).modules@, final(self).modules@),
            r matches Ok(s) ==> s.uid == old(self).modules@[idx as int].0,
            (match r {
                Ok(s) => Ok::<Seq<(Seq<char>, GlobalV)>, LangError>(s.globals_v()),
                Err(e) => Err::<Seq<(Seq<char>, GlobalV)>, LangError>(e),
            }, state_view(final(self).modules@))
                == scope_spec(old(self).modules@, state_view(old(self).modules@), idx as int, resolved@),
    {
        let ghost mods = self.modules@;
        let ghost st = state_view(mods);
        let ghost imports = mods[idx as int].1.module.imports@;
        let uid = self.modules[idx].0;
        let mut scope = ParserModuleScope::new(uid);

        // the classes of the module (without fields or methods yet)
        match self.declare_classes_of(&mut scope, idx, uid) {
            Ok(_) => {},
            Err(e) => return Err(e),
        }
        let ghost m1 = scope.globals_v();

        // the classes of the imported modules
        let ni = self.modules[idx].1.module.imports.len();
        let mut k: usize = 0;
        while k < ni
            invariant
                self.modules@ == mods,
                st == state_view(mods),
                idx < mods.len(),
                imports == mods[idx as int].1.module.imports@,
                ni == imports.len(),
                ni == resolved@.len(),
                k <= ni,
                scope.uid == uid,
                uid == mods[idx as int].0,
                classes_spec(Seq::empty(), mods[idx as int].1.module.classes@, st[idx as int].types, uid.0, 0)
                    == Ok::<Seq<(Seq<char>, GlobalV)>, LangError>(m1),
                import_classes_spec(m1, mods, st, resolved@, imports, 0)
                    == import_classes_spec(scope.globals_v(), mods, st, resolved@, imports, k as nat),
            decreases ni - k,
        {
            let u = match resolved[k] {
                Some(u) => u,
                None => return Err(LangError::load(LoadErrorKind::LoadModuleError(
                    self.modules[idx].1.module.imports[k].0.clone()))),
            };
            let m = match self.find_module(u) {
                Some(m) => m,
                None => return Err(LangError::build(BuildErrorKind::UnexpectedError)),
            };
            match self.declare_classes_of(&mut scope, m, u) {
                Ok(_) => {},
                Err(e) => return Err(e),
            }
            k = k + 1;
        }
        let ghost m2 = scope.globals_v();

        // the fields and methods of the classes of the module
        match self.load_parsing_module(&mut scope, idx) {
            Ok(_) => {},
            Err(e) => return Err(e),
        }
        let ghost st3 = state_view(self.modules@);
        proof {
            assert(self.modules@[idx as int].1.module == mods[idx as int].1.module);
        }

        // the variables and functions of the module
        match self.declare_values_of(&mut scope, idx, uid, false) {
            Ok(_) => {},
            Err(e) => return Err(e),
        }
        let ghost m4 = scope.globals_v();

        // the variables and functions of the imported modules
        let mut k: usize = 0;
        while k < ni
            invariant
                same_modules(mods, self.modules@),
                mods == old(self).modules@,
                st == state_view(mods),
                idx < mods.len(),
                imports == mods[idx as int].1.module.imports@,
                ni == imports.len(),
                ni == resolved@.len(),
                k <= ni,
                scope.uid == uid,
                uid == mods[idx as int].0,
                scope_spec(mods, st, idx as int, resolved@)
                    == import_values_spec(scope.globals_v(), mods, state_view(self.modules@), resolved@, imports, k as nat),
            decreases ni - k,
        {
            let u = match resolved[k] {
                Some(u) => u,
                None => return Err(LangError::load(LoadErrorKind::LoadModuleError(
                    self.modules[idx].1.module.imports[k].0.clone()))),
            };
            proof {
                lemma_same_modules_index(mods, self.modules@, u.0);
                assert(self.modules@[idx as int].1.module == mods[idx as int].1.module);
            }
            let m = match self.find_module(u) {
                Some(m) => m,
                None => return Err(LangError::build(BuildErrorKind::UnexpectedError)),
            };
            proof {
                assert(self.modules@[m as int].1.module == mods[m as int].1.module);
            }
            let ghost before = self.modules@;
            match self.load_parsing_module(&mut scope, m) {
                Ok(_) => {},
                Err(e) => return Err(e),
            }
            proof {
                assert(self.modules@[m as int].1.module == mods[m as int].1.module);
            }
            match self.declare_values_of(&mut scope, m, u, true) {
                Ok(_) => {},
                Err(e) => return Err(e),
            }
            k = k + 1;
        }

        Ok(scope)
    }

    /// Reads the literal that a global variable is defined with.
    fn parse_variable_value(tokens: &mut Tokens) -> (r: Result<LiteralKind, LangError>)
        ensures
            final(tokens).tokens == old(tokens).tokens,
            r == match token_at(old(tokens).tokens@, old(tokens).pos as nat) {
                None => Err(end_of_file_error()),
                Some(t) => match t.kind {
                    TokenKind::Literal(l) => Ok(l),
                    _ => Err(unexpected(t)),
                },
            },
    {
        let token = tokens.pop_err()?;

        match token.kind {
            TokenKind::Literal(kind) => Ok(kind),
            _ => Err(LangError::new_parser_unexpected_token(&token)),
        }
    }

    /// Parses the body of a function in `scope`, a fresh scope of a definition, after declaring
    /// the object of a method and then the parameters in its block.
    fn parse_function_value(
        tokens: &mut Tokens,
        scope: &mut ParserScope,
        params: &Vec<String>,
        func_type: &FunctionType,
        method: Option<ClassRef>,
    ) -> (r: Result<Function, LangError>)
        requires
            old(scope).wf(),
            old(scope).frames_v() == seq![FrameV { names: Seq::empty(), types: Seq::empty(), eval_type: TypeV::Nothing }],
            params@.len() + 1 + old(tokens).remaining() < SCOPE_LIMIT,
            old(tokens).pos < old(tokens).tokens@.len(),
        ensures
            final(scope).wf(),
            final(scope).module == old(scope).module,
            final(scope).module_uid == old(scope).module_uid,
            final(scope).frames_v().len() == 1,
            params@.len() != func_type.0@.len() ==> (r matches Err(e)
                && err_view(e) == ErrV::Unexpected(old(tokens).tokens@[old(tokens).pos as int], PARAMS_LENGTH_MESSAGE@)),
            params@.len() == func_type.0@.len() ==> body_spec(
                old(scope).pctx(old(tokens).tokens@),
                seq![function_frame(names_view(params@), func_type@.params, method_view(method))],
                old(tokens).pos as nat,
                Seq::empty(),
            ) == (match r {
                Ok(f) => Ok::<Seq<AstV>, ErrV>(nodes_view(f.body@)),
                Err(e) => Err::<Seq<AstV>, ErrV>(err_view(e)),
            }, final(scope).frames_v(), final(tokens).pos as nat),
            r matches Ok(f) ==> {
                &&& params@.len() == func_type.0@.len()
                &&& names_view(f.parameters@) == names_view(params@)
                &&& f.method == method
                &&& body_well_typed(f.body@)
            },
            params@.len() == func_type.0@.len() ==> ({
                let k: int = if method is Some { 1 } else { 0 };
                &&& final(scope).top().names.len() >= k + params@.len()
                &&& final(scope).top().types.len() >= k + params@.len()
                &&& forall|i: int| 0 <= i < params@.len() ==> final(scope).top().names[k + i] == (#[trigger] params@[i])@
                        && final(scope).top().types[k + i] == func_type.0@[i]@
                &&& method matches Some(m) ==> final(scope).top().names[0] == CLASS_SELF_REFERENCE@
                        && final(scope).top().types[0] == TypeV::Class(m.name@, m.module.0)
            }),
    {
        if params.len() != func_type.0.len() {
            let token = match tokens.peek() {
                Some(t) => t,
                None => return Err(LangError::new_parser_end_of_file()),
            };
            return Err(LangError::parser(
                &token,
                ParserErrorKind::UnexpectedError(String::from_str(PARAMS_LENGTH_MESSAGE)),
            ));
        }
        let ghost pnames = names_view(params@);
        let ghost ptypes = func_type@.params;
        proof {
            lemma_types_view_len(func_type.0@);
        }
        let ghost n0: Seq<Seq<char>> = match method_view(method) {
            Some(_) => seq![CLASS_SELF_REFERENCE@],
            None => Seq::empty(),
        };
        let ghost t0: Seq<TypeV> = match method_view(method) {
            Some((name, module)) => seq![TypeV::Class(name, module)],
            None => Seq::empty(),
        };

        if let Some(m) = &method {
            scope.declare(String::from_str(CLASS_SELF_REFERENCE), TypeKind::Class(m.clone_ref()));
        }
        proof {
            assert(scope.frames_v() =~= seq![FrameV { names: n0, types: t0, eval_type: TypeV::Nothing }]);
        }

        let mut i: usize = 0;
        while i < params.len()
            invariant
                scope.wf(),
                scope.module == old(scope).module,
                scope.module_uid == old(scope).module_uid,
                i <= params@.len(),
                params@.len() == func_type.0@.len(),
                pnames == names_view(params@),
                ptypes == func_type@.params,
                pnames.len() == params@.len(),
                ptypes.len() == params@.len(),
                forall|j: int| 0 <= j < ptypes.len() ==> #[trigger] ptypes[j] == func_type.0@[j]@,
                n0.len() <= 1,
                n0.len() == t0.len(),
                scope.frames_v() == seq![FrameV {
                    names: n0 + pnames.take(i as int),
                    types: t0 + ptypes.take(i as int),
                    eval_type: TypeV::Nothing,
                }],
                params@.len() + 1 + tokens.remaining() < SCOPE_LIMIT,
                *tokens == *old(tokens),
            decreases params@.len() - i,
        {
            let ghost before = scope.frames_v();
            scope.declare(params[i].clone(), func_type.0[i].clone_type());
            proof {
                assert(pnames.take(i + 1) =~= pnames.take(i as int).push(params@[i as int]@));
                assert(ptypes.take(i + 1) =~= ptypes.take(i as int).push(ptypes[i as int]));
                assert(n0 + pnames.take(i + 1) =~= (n0 + pnames.take(i as int)).push(params@[i as int]@));
                assert(t0 + ptypes.take(i + 1) =~= (t0 + ptypes.take(i as int)).push(ptypes[i as int]));
                assert(scope.frames_v() =~= seq![FrameV {
                    names: n0 + pnames.take(i + 1),
                    types: t0 + ptypes.take(i + 1),
                    eval_type: TypeV::Nothing,
                }]);
            }
            i = i + 1;
        }
        proof {
            assert(pnames.take(params@.len() as int) =~= pnames);
            assert(ptypes.take(params@.len() as int) =~= ptypes);
            assert(n0 + pnames =~= function_frame(pnames, ptypes, method_view(method)).names);
            assert(t0 + ptypes =~= function_frame(pnames, ptypes, method_view(method)).types);
            assert(scope.frames_v() =~= seq![function_frame(pnames, ptypes, method_view(method))]);
            assert forall|i: int| 0 <= i < params@.len() implies (n0 + pnames)[n0.len() + i] == (#[trigger] params@[i])@
                && (t0 + ptypes)[n0.len() + i] == func_type.0@[i]@ by {
                assert(pnames[i] == params@[i]@);
            }
        }

        let ghost top1 = scope.top();
        let parsed = scope.parse_body(tokens);
        proof {
            let top2 = scope.top();
            assert(top1.names.is_prefix_of(top2.names));
            assert(top1.types.is_prefix_of(top2.types));
            assert forall|i: int| 0 <= i < params@.len() implies top2.names[n0.len() + i] == (#[trigger] params@[i])@
                && top2.types[n0.len() + i] == func_type.0@[i]@ by {
                assert(top1.names[n0.len() + i] == params@[i]@);
                assert(top1.types[n0.len() + i] == func_type.0@[i]@);
                assert(top2.names.subrange(0, top1.names.len() as int)[n0.len() + i] == top2.names[n0.len() + i]);
                assert(top2.types.subrange(0, top1.types.len() as int)[n0.len() + i] == top2.types[n0.len() + i]);
            }
            if method is Some {
                assert(top1.names[0] == CLASS_SELF_REFERENCE@);
                assert(top2.names.subrange(0, top1.names.len() as int)[0] == top2.names[0]);
                assert(top2.types.subrange(0, top1.types.len() as int)[0] == top2.types[0]);
            }
        }
        let body: ASTBody = match parsed {
            Ok(b) => b,
            Err(e) => return Err(e),
        };

        let mut parameters: Vec<String> = Vec::new();
        let mut i: usize = 0;
        while i < params.len()
            invariant
                i <= params@.len(),
                parameters@.len() == i,
                forall|j: int| 0 <= j < i ==> (#[trigger] parameters@[j])@ == params@[j]@,
            decreases params@.len() - i,
        {
            parameters.push(params[i].clone());
            i = i + 1;
        }
        proof {
            assert(names_view(parameters@) =~= names_view(params@));
        }
        Ok(Function::new(body, parameters, method))
    }
}

/// The class of a method, by name and module.
pub open spec fn method_view(method: Option<ClassRef>) -> Option<(Seq<char>, u64)> {
    match method {
        Some(c) => Some((c.name@, c.module.0)),
        None => None,
    }
}

/// The block that a function body is parsed in: `self` for the object of a method, then the
/// parameters with their types.
pub open spec fn function_frame(params: Seq<Seq<char>>, types: Seq<TypeV>, method: Option<(Seq<char>, u64)>) -> FrameV {
    match method {
        Some((name, module)) => FrameV {
            names: seq![CLASS_SELF_REFERENCE@] + params,
            types: seq![TypeV::Class(name, module)] + types,
            eval_type: TypeV::Nothing,
        },
        None => FrameV { names: params, types, eval_type: TypeV::Nothing },
    }
}

/// Parsing a function body at position `pos` of the tokens `toks` of module `uid`, whose globals
/// are `g`, in the block `frame`: the statements, or the first error; the type that its
/// `return` statements give must fit the return type `ret`, else that is the error, at the
/// first token of the body.
pub open spec fn function_body_spec(g: Seq<(Seq<char>, GlobalV)>, toks: Seq<Token>, uid: u64, frame: FrameV, pos: nat, ret: TypeV)
    -> Result<Seq<AstV>, ErrV>
{
    let (r, f, _) = body_spec(PCtx { toks, globals: g, uid }, seq![frame], pos, Seq::empty());
    match r {
        Err(e) => Err(e),
        Ok(body) => if compatible(f.last().eval_type, ret) {
            Ok(body)
        } else {
            Err(ErrV::WrongType(toks[pos as int], ret, f.last().eval_type))
        },
    }
}

/// A function definition, or the error, as a value: its type and its body.
pub open spec fn definition_view(r: Result<FunctionDefinition, LangError>) -> Result<(FunctionTypeV, Option<Seq<AstV>>), ErrV> {
    match r {
        Ok(d) => Ok((d.metadata@, match d.data {
            Some(f) => Some(nodes_view(f.body@)),
            None => None,
        })),
        Err(e) => Err(err_view(e)),
    }
}

/// Defining a declared function in module `uid`, whose globals are `g` and tokens `toks`: its
/// type resolved, then its body, where it has one, parsed with its parameters declared; the
/// parameters must be as many as the parameter types.
pub open spec fn function_result(g: Seq<(Seq<char>, GlobalV)>, toks: Seq<Token>, uid: u64, decl: ParsableFunction,
    method: Option<(Seq<char>, u64)>) -> Result<(FunctionTypeV, Option<Seq<AstV>>), ErrV>
{
    match convert_fn_spec(decls_map(g), ptypes_view(decl.func_type.0@), (*decl.func_type.1)@) {
        None => Err(ErrV::Plain(unknown_type_error())),
        Some(ft) => match decl.body {
            None => Ok((ft, None)),
            Some(b) => if decl.params@.len() != ft.params.len() {
                Err(ErrV::Unexpected(toks[b.0 as int], PARAMS_LENGTH_MESSAGE@))
            } else {
                match function_body_spec(g, toks, uid, function_frame(names_view(decl.params@), ft.params, method), b.0 as nat, ft.ret) {
                    Ok(body) => Ok((ft, Some(body))),
                    Err(e) => Err(e),
                }
            },
        },
    }
}

/// A variable definition agrees with its declaration in a scope: its type is the declared
/// one, resolved; it has a value exactly where the declaration has one, the literal that
/// stands there, of a type compatible with the variable's.
pub open spec fn variable_defined(toks: Seq<Token>, m: Map<Seq<char>, GlobalV>, decl: ParsableVariable, def: VariableDefinition) -> bool {
    &&& convert_spec(m, decl.type_kind@) == Some(def.metadata@)
    &&& match decl.body {
        None => def.data is None,
        Some(b) => def.data == literal_at(toks, b.0 as nat)
            && (def.data matches Some(l) && compatible(literal_type(l), def.metadata@)),
    }
}

/// A function definition agrees with its declaration in module `uid`, whose globals are `g` and
/// tokens `toks`: its type is the declared one, resolved; it has a value exactly where the
/// declaration has a body, with the declared parameters, one per parameter type, the class of a
/// method, and the body that parsing gives.
pub open spec fn function_defined(g: Seq<(Seq<char>, GlobalV)>, toks: Seq<Token>, uid: u64, decl: ParsableFunction,
    def: FunctionDefinition, method: Option<(Seq<char>, u64)>) -> bool
{
    &&& convert_fn_spec(decls_map(g), ptypes_view(decl.func_type.0@), (*decl.func_type.1)@) == Some(def.metadata@)
    &&& match decl.body {
        None => def.data is None,
        Some(b) => def.data matches Some(f) && {
            &&& names_view(f.parameters@) == names_view(decl.params@)
            &&& decl.params@.len() == def.metadata.0@.len()
            &&& function_body_spec(g, toks, uid, function_frame(names_view(decl.params@), def.metadata@.params, method),
                    b.0 as nat, def.metadata@.ret) == Ok::<Seq<AstV>, ErrV>(nodes_view(f.body@))
            &&& body_well_typed(f.body@)
            &&& method_view(f.method) == method
        },
    }
}

/// A class definition agrees with its declaration in module `uid`, whose globals are `g` and
/// tokens `toks`: its description is the one that the globals give its name, followed by the
/// declared methods and fields, resolved; each method is defined as declared.
pub open spec fn class_defined(g: Seq<(Seq<char>, GlobalV)>, toks: Seq<Token>, uid: u64, name: Seq<char>, decl: ParsableClass,
    def: ClassDefinition) -> bool
{
    global_get(decls_map(g), name) matches ScopeGetV::Class(_, c) && {
        let md = def.metadata@;
        let nm = c.methods.len();
        let nf = c.fields.len();
        &&& md.name == c.name
        &&& md.module == c.module
        &&& md.kind == c.kind
        &&& md.methods.len() == nm + decl.methods@.len()
        &&& md.methods.subrange(0, nm as int) == c.methods
        &&& md.fields.len() == nf + decl.fields@.len()
        &&& md.fields.subrange(0, nf as int) == c.fields
        &&& def.data.methods@.len() == decl.methods@.len()
        &&& forall|j: int| 0 <= j < decl.methods@.len() ==> {
            &&& (#[trigger] def.data.methods@[j]).0@ == decl.methods@[j].0@
            &&& function_defined(g, toks, uid, decl.methods@[j].1, def.data.methods@[j].1, Some((c.name, c.module)))
            &&& md.methods[nm + j] == (decl.methods@[j].0@, def.data.methods@[j].1.metadata@)
        }
        &&& forall|j: int| 0 <= j < decl.fields@.len() ==>
            (#[trigger] md.fields[nf + j]).0 == decl.fields@[j].0@
                && convert_spec(decls_map(g), decl.fields@[j].1@) == Some(md.fields[nf + j].1)
    }
}

/// A parsed module agrees with its declarations, all resolved among the globals `g`: it has the
/// identifier `uid`, imports the modules that its imports resolve to, and defines first its
/// variables, then its functions, then its classes, in the order of their declarations.
pub open spec fn module_defined(decl: ParsableModule, uid: ModuleUID, resolved: Seq<Option<ModuleUID>>, md: Module,
    g: Seq<(Seq<char>, GlobalV)>) -> bool
{
    let nv = decl.variables@.len();
    let nf = decl.functions@.len();
    let nc = decl.classes@.len();
    let toks = decl.tokens.tokens@;
    &&& md.uid == uid
    &&& md.id.0@ == decl.id.0@
    &&& md.imports@.len() == resolved.len()
    &&& forall|k: int| 0 <= k < resolved.len() ==> #[trigger] resolved[k] == Some(md.imports@[k])
    &&& md.features@.len() == nv + nf + nc
    &&& forall|i: int| 0 <= i < nv ==> (#[trigger] md.features@[i]).0@ == decl.variables@[i].0@
        && (md.features@[i].1 matches ModuleFeature::Variable(d) && variable_defined(toks, decls_map(g), decl.variables@[i].1, d))
    &&& forall|i: int| 0 <= i < nf ==> (#[trigger] md.features@[nv + i]).0@ == decl.functions@[i].0@
        && (md.features@[nv + i].1 matches ModuleFeature::Function(d) && function_defined(g, toks, uid.0, decl.functions@[i].1, d, None))
    &&& forall|i: int| 0 <= i < nc ==> (#[trigger] md.features@[nv + nf + i]).0@ == decl.classes@[i].0@
        && (md.features@[nv + nf + i].1 matches ModuleFeature::Class(d)
            && class_defined(g, toks, uid.0, decl.classes@[i].0@, decl.classes@[i].1, d))
}

/// The error, if any, of defining a declared variable among globals `m`, in a module with
/// tokens `toks`: its type must resolve, and its value, where it has one, must be a literal of a
/// type that fits.
pub open spec fn variable_error(toks: Seq<Token>, m: Map<Seq<char>, GlobalV>, decl: ParsableVariable) -> Option<ErrV> {
    match convert_spec(m, decl.type_kind@) {
        None => Some(ErrV::Plain(unknown_type_error())),
        Some(t) => match decl.body {
            None => None,
            Some(b) => match token_at(toks, b.0 as nat) {
                None => Some(ErrV::Plain(end_of_file_error())),
                Some(tok) => match tok.kind {
                    TokenKind::Literal(l) => if compatible(literal_type(l), t) {
                        None
                    } else {
                        Some(ErrV::WrongType(tok, t, literal_type(l)))
                    },
                    _ => Some(ErrV::Plain(unexpected(tok))),
                },
            },
        },
    }
}

/// The first error among the variables `vars` from position `k` on.
pub open spec fn variables_error(toks: Seq<Token>, m: Map<Seq<char>, GlobalV>, vars: Seq<(String, ParsableVariable)>, k: nat)
    -> Option<ErrV>
    decreases vars.len() - k,
{
    if k >= vars.len() {
        None
    } else {
        match variable_error(toks, m, vars[k as int].1) {
            Some(e) => Some(e),
            None => variables_error(toks, m, vars, k + 1),
        }
    }
}

/// The first error among the functions `funcs` from position `k` on, each a method of `method`
/// where that is a class.
pub open spec fn functions_error(g: Seq<(Seq<char>, GlobalV)>, toks: Seq<Token>, uid: u64, funcs: Seq<(String, ParsableFunction)>,
    method: Option<(Seq<char>, u64)>, k: nat) -> Option<ErrV>
    decreases funcs.len() - k,
{
    if k >= funcs.len() {
        None
    } else {
        match function_result(g, toks, uid, funcs[k as int].1, method) {
            Err(e) => Some(e),
            Ok(_) => functions_error(g, toks, uid, funcs, method, k + 1),
        }
    }
}

/// The first declared field type, from position `k` on, that does not resolve among globals `m`.
pub open spec fn fields_error(m: Map<Seq<char>, GlobalV>, fields: Seq<(String, ParsableType)>, k: nat) -> Option<ErrV>
    decreases fields.len() - k,
{
    if k >= fields.len() {
        None
    } else if convert_spec(m, fields[k as int].1@) is None {
        Some(ErrV::Plain(unknown_type_error()))
    } else {
        fields_error(m, fields, k + 1)
    }
}

/// The error, if any, of defining the declared class `decl`, described by `c`: its methods, then
/// its fields.
pub open spec fn class_error(g: Seq<(Seq<char>, GlobalV)>, toks: Seq<Token>, uid: u64, decl: ParsableClass, c: ClassTypeV)
    -> Option<ErrV>
{
    match functions_error(g, toks, uid, decl.methods@, Some((c.name, c.module)), 0) {
        Some(e) => Some(e),
        None => fields_error(decls_map(g), decl.fields@, 0),
    }
}

/// The first error among the classes `classes` from position `k` on; each must be a class
/// among the globals.
pub open spec fn classes_error(g: Seq<(Seq<char>, GlobalV)>, toks: Seq<Token>, uid: u64, classes: Seq<(String, ParsableClass)>, k: nat)
    -> Option<ErrV>
    decreases classes.len() - k,
{
    if k >= classes.len() {
        None
    } else {
        match global_get(decls_map(g), classes[k as int].0@) {
            ScopeGetV::Class(_, c) => match class_error(g, toks, uid, classes[k as int].1, c) {
                Some(e) => Some(e),
                None => classes_error(g, toks, uid, classes, k + 1),
            },
            _ => Some(ErrV::Plain(unexpected_build_error())),
        }
    }
}

/// The first import, from position `k` on, that resolves to no module.
pub open spec fn imports_error(resolved: Seq<Option<ModuleUID>>, imports: Seq<ModuleIdentifier>, k: nat) -> Option<ErrV>
    decreases resolved.len() - k,
{
    if k >= resolved.len() {
        None
    } else if resolved[k as int] is None {
        Some(ErrV::Plain(import_error(imports[k as int])))
    } else {
        imports_error(resolved, imports, k + 1)
    }
}

/// The error, if any, of defining module `p` among its globals `g` as module `uid`: its
/// variables, then its functions, then its classes, then its imports.
pub open spec fn features_error(g: Seq<(Seq<char>, GlobalV)>, uid: u64, p: ParsableModule, resolved: Seq<Option<ModuleUID>>)
    -> Option<ErrV>
{
    let toks = p.tokens.tokens@;
    match variables_error(toks, decls_map(g), p.variables@, 0) {
        Some(e) => Some(e),
        None => match functions_error(g, toks, uid, p.functions@, None, 0) {
            Some(e) => Some(e),
            None => match classes_error(g, toks, uid, p.classes@, 0) {
                Some(e) => Some(e),
                None => imports_error(resolved, p.imports@, 0),
            },
        },
    }
}

/// The description of class `c` after the methods `methods`, from position `k` on, are added
/// with their resolved types, up to the first one that fails to be defined.
pub open spec fn filled_methods(g: Seq<(Seq<char>, GlobalV)>, toks: Seq<Token>, uid: u64, methods: Seq<(String, ParsableFunction)>,
    class: (Seq<char>, u64), c: ClassTypeV, k: nat) -> ClassTypeV
    decreases methods.len() - k,
{
    if k >= methods.len() {
        c
    } else {
        match function_result(g, toks, uid, methods[k as int].1, Some(class)) {
            Ok((ft, _)) => filled_methods(g, toks, uid, methods, class,
                ClassTypeV { methods: c.methods.push((methods[k as int].0@, ft)), ..c }, k + 1),
            Err(_) => c,
        }
    }
}

/// The description of class `c` after defining the declared class `decl`: its methods added up
/// to the first that fails, then, where none fails, its fields up to the first whose type does
/// not resolve.
pub open spec fn filled_class(g: Seq<(Seq<char>, GlobalV)>, toks: Seq<Token>, uid: u64, decl: ParsableClass, c: ClassTypeV)
    -> ClassTypeV
{
    let c1 = filled_methods(g, toks, uid, decl.methods@, (c.name, c.module), c, 0);
    match functions_error(g, toks, uid, decl.methods@, Some((c.name, c.module)), 0) {
        Some(_) => c1,
        None => fill_fields_spec(decls_map(g), decl.fields@, c1, 0).0,
    }
}

/// The descriptions of the classes `classes`, from position `k` on, as their definitions fill
/// them in, up to and with the first that fails.
pub open spec fn stored_classes(g: Seq<(Seq<char>, GlobalV)>, toks: Seq<Token>, uid: u64, classes: Seq<(String, ParsableClass)>, k: nat)
    -> Seq<ClassTypeV>
    decreases classes.len() - k,
{
    if k >= classes.len() {
        Seq::empty()
    } else {
        match global_get(decls_map(g), classes[k as int].0@) {
            ScopeGetV::Class(_, c) => seq![filled_class(g, toks, uid, classes[k as int].1, c)] + match class_error(g, toks, uid, classes[k as int].1, c) {
                Some(_) => Seq::empty(),
                None => stored_classes(g, toks, uid, classes, k + 1),
            },
            _ => Seq::empty(),
        }
    }
}

/// The class descriptions that defining module `p` fills in: none where a variable or a
/// function fails, else those of its classes, up to and with the first that fails.
pub open spec fn features_stored(g: Seq<(Seq<char>, GlobalV)>, uid: u64, p: ParsableModule) -> Seq<ClassTypeV> {
    let toks = p.tokens.tokens@;
    if variables_error(toks, decls_map(g), p.variables@, 0) is Some || functions_error(g, toks, uid, p.functions@, None, 0) is Some {
        Seq::empty()
    } else {
        stored_classes(g, toks, uid, p.classes@, 0)
    }
}

/// Class descriptions, each by its view.
pub open spec fn class_views(s: Seq<ClassType>) -> Seq<ClassTypeV> {
    s.map_values(|c: ClassType| c@)
}

/// Recording the class descriptions `cs`, in order, in the modules that own them.
pub open spec fn stores_spec(st: Seq<ModuleStateV>, cs: Seq<ClassTypeV>) -> Seq<ModuleStateV>
    decreases cs.len(),
{
    if cs.len() == 0 {
        st
    } else {
        stores_spec(store_spec(st, cs[0]), cs.drop_first())
    }
}

/// What parsing module `uid` among the modules `mods`, with its imports resolved to `resolved`,
/// gives: the error for a module that is not there; else the error of building its globals;
/// else the first error of its definitions, or, where there is none, the module as declared.
pub open spec fn parsed_as(mods: Seq<(ModuleUID, ParsingModule)>, uid: ModuleUID, resolved: Seq<Option<ModuleUID>>,
    r: Result<Module, LangError>) -> bool
{
    match module_index(mods, uid.0) {
        None => r matches Err(e) && module_not_found_error(e),
        Some(i) => match scope_spec(mods, state_view(mods), i, resolved).0 {
            Ok(g) => {
                &&& fails_with(r, features_error(g, uid.0, mods[i].1.module, resolved))
                &&& r matches Ok(md) ==> module_defined(mods[i].1.module, uid, resolved, md, g)
            },
            Err(e) => r == Err::<Module, LangError>(e),
        },
    }
}

/// The state of the modules `mods` after parsing module `uid` with its imports resolved to
/// `resolved`: unchanged for a module that is not there; else as building its globals leaves
/// it, and then, where that succeeds, with the class descriptions that its definitions fill
/// in recorded.
pub open spec fn parsed_state(mods: Seq<(ModuleUID, ParsingModule)>, uid: ModuleUID, resolved: Seq<Option<ModuleUID>>)
    -> Seq<ModuleStateV>
{
    match module_index(mods, uid.0) {
        None => state_view(mods),
        Some(i) => {
            let (res, st) = scope_spec(mods, state_view(mods), i, resolved);
            match res {
                Ok(g) => stores_spec(st, features_stored(g, uid.0, mods[i].1.module)),
                Err(_) => st,
            }
        },
    }
}

/// A result that fails or not as `e` says, and then with that error.
pub open spec fn fails_with<T>(r: Result<T, LangError>, e: Option<ErrV>) -> bool {
    match r {
        Ok(_) => e is None,
        Err(x) => e == Some(err_view(x)),
    }
}

/// The error for a module that the parser does not hold.
pub open spec fn module_not_found_error(e: LangError) -> bool {
    err_view(e) == ErrV::Unexpected(Token { kind: TokenKind::NewLine, start: 0, end: 0 }, MODULE_NOT_FOUND_MESSAGE@)
}

impl ModuleParser {
    /// Parses the value of variable `i` of module `idx`.
    fn define_variable(&self, scope: &ParserModuleScope, idx: usize, i: usize) -> (r: Result<VariableDefinition, LangError>)
        requires
            idx < self.modules@.len(),
            i < self.modules@[idx as int].1.module.variables@.len(),
            module_fits(self.modules@[idx as int].1.module),
        ensures
            r matches Ok(d) ==> variable_defined(
                self.modules@[idx as int].1.module.tokens.tokens@,
                scope.map(),
                self.modules@[idx as int].1.module.variables@[i as int].1,
                d,
            ),
            fails_with(r, variable_error(self.modules@[idx as int].1.module.tokens.tokens@, scope.map(),
                self.modules@[idx as int].1.module.variables@[i as int].1)),
    {
        let pm = &self.modules[idx].1.module;
        let var = &pm.variables[i].1;
        let metadata = scope.convert_parsable_type(&var.type_kind)?;
        let data = match var.body {
            Some(body) => {
                let mut tokens = pm.tokens.new_clone(body);
                let token = tokens.peek().unwrap();
                let data = Self::parse_variable_value(&mut tokens)?;
                let data_type = literal_type_of(&data);
                if !data_type.is_compatible(&metadata) {
                    return Err(LangError::wrong_type(&token, &metadata, &data_type));
                }
                Some(data)
            },
            None => None,
        };
        Ok(VariableDefinition { data, metadata })
    }

    /// Defines function `decl` of module `idx`: resolves its type in `scope` and parses its
    /// body, if it has one, in a child of `scope`.
    fn define_function(
        &self,
        scope: &ParserModuleScope,
        idx: usize,
        decl: &ParsableFunction,
        method: Option<ClassRef>,
    ) -> (r: Result<FunctionDefinition, LangError>)
        requires
            idx < self.modules@.len(),
            decl.body matches Some(b) ==> b.0 < self.modules@[idx as int].1.module.tokens.tokens@.len(),
            decl.params@.len() + self.modules@[idx as int].1.module.tokens.tokens@.len() + 1 < SCOPE_LIMIT,
        ensures
            function_result(scope.globals_v(),
                self.modules@[idx as int].1.module.tokens.tokens@, scope.uid.0, *decl, method_view(method)) == definition_view(r),
            r matches Ok(d) ==> function_defined(scope.globals_v(), self.modules@[idx as int].1.module.tokens.tokens@,
                scope.uid.0, *decl, d, method_view(method)),
    {
        proof {
            lemma_globals_view(scope.globals@);
        }
        let pm = &self.modules[idx].1.module;
        let metadata = match scope.convert_parsable_func_type(&decl.func_type) {
            Ok(m) => m,
            Err(e) => return Err(e),
        };
        proof {
            lemma_types_view_len(metadata.0@);
        }
        let data = match decl.body {
            Some(body) => {
                let mut tokens = pm.tokens.new_clone(body);
                let mut child = ParserScope::new_module_child(scope);
                let token = tokens.peek().unwrap();
                let data = match Self::parse_function_value(&mut tokens, &mut child, &decl.params, &metadata, method) {
                    Ok(d) => d,
                    Err(e) => return Err(e),
                };
                let last = child.frames.len() - 1;
                if !child.frames[last].eval_type.is_compatible(&metadata.1) {
                    return Err(LangError::wrong_type(&token, &metadata.1, &child.frames[last].eval_type));
                }
                Some(Arc::new(data))
            },
            None => None,
        };
        Ok(FunctionDefinition { data, metadata })
    }
}

impl ModuleParser {
    /// Parses the methods of class `i` of module `idx` and adds to `class_type`, the class that
    /// `scope` gives its name, the types of its methods and fields.
    fn define_class(&self, scope: &ParserModuleScope, idx: usize, i: usize, class_type: &mut ClassType)
        -> (r: Result<Vec<(String, FunctionDefinition)>, LangError>)
        requires
            idx < self.modules@.len(),
            i < self.modules@[idx as int].1.module.classes@.len(),
            module_fits(self.modules@[idx as int].1.module),
            global_get(scope.map(), self.modules@[idx as int].1.module.classes@[i as int].0@)
                matches ScopeGetV::Class(_, c) && c == old(class_type)@,
        ensures
            r matches Ok(methods) ==> class_defined(
                scope.globals_v(),
                self.modules@[idx as int].1.module.tokens.tokens@,
                scope.uid.0,
                self.modules@[idx as int].1.module.classes@[i as int].0@,
                self.modules@[idx as int].1.module.classes@[i as int].1,
                (ClassDefinition { data: Class { methods }, metadata: *final(class_type) }),
            ),
            fails_with(r, class_error(scope.globals_v(), self.modules@[idx as int].1.module.tokens.tokens@, scope.uid.0,
                self.modules@[idx as int].1.module.classes@[i as int].1, old(class_type)@)),
            final(class_type)@ == filled_class(scope.globals_v(), self.modules@[idx as int].1.module.tokens.tokens@, scope.uid.0,
                self.modules@[idx as int].1.module.classes@[i as int].1, old(class_type)@),
    {
        proof {
            lemma_globals_view(scope.globals@);
        }
        let ghost m = scope.map();
        let ghost g = scope.globals_v();
        let ghost c0 = class_type@;
        let pm = &self.modules[idx].1.module;
        let decl = &pm.classes[i].1;
        let ghost nm = c0.methods.len();
        let ghost nf = c0.fields.len();
        let mut methods: Vec<(String, FunctionDefinition)> = Vec::new();
        let mut j: usize = 0;
        while j < decl.methods.len()
            invariant
                idx < self.modules@.len(),
                pm == self.modules@[idx as int].1.module,
                decl == pm.classes@[i as int].1,
                i < pm.classes@.len(),
                module_fits(*pm),
                m == scope.map(),
                g == scope.globals_v(),
                m == decls_map(g),
                j <= decl.methods@.len(),
                methods@.len() == j,
                c0 == old(class_type)@,
                class_type@.name == c0.name,
                class_type@.module == c0.module,
                class_type@.kind == c0.kind,
                class_type@.fields == c0.fields,
                class_type@.methods.len() == nm + j,
                class_type@.methods.subrange(0, nm as int) == c0.methods,
                functions_error(g, pm.tokens.tokens@, scope.uid.0, decl.methods@, Some((c0.name, c0.module)), 0)
                    == functions_error(g, pm.tokens.tokens@, scope.uid.0, decl.methods@, Some((c0.name, c0.module)), j as nat),
                filled_methods(g, pm.tokens.tokens@, scope.uid.0, decl.methods@, (c0.name, c0.module), c0, 0)
                    == filled_methods(g, pm.tokens.tokens@, scope.uid.0, decl.methods@, (c0.name, c0.module), class_type@, j as nat),
                forall|t: int| 0 <= t < j ==> {
                    &&& (#[trigger] methods@[t]).0@ == decl.methods@[t].0@
                    &&& function_defined(g, pm.tokens.tokens@, scope.uid.0, decl.methods@[t].1, methods@[t].1, Some((c0.name, c0.module)))
                    &&& class_type@.methods[nm + t] == (decl.methods@[t].0@, methods@[t].1.metadata@)
                },
            decreases decl.methods@.len() - j,
        {
            proof {
                assert(module_fits(*pm));
                assert(pm.classes@[i as int].1.methods@[j as int] == decl.methods@[j as int]);
            }
            let method = ClassRef { name: class_type.name.clone(), module: class_type.module };
            let def = match self.define_function(scope, idx, &decl.methods[j].1, Some(method)) {
                Ok(d) => d,
                Err(e) => {
                    return Err(e);
                },
            };
            let metadata = def.metadata.clone_fn_type();
            let ghost before = class_type@.methods;
            class_type.methods.push((decl.methods[j].0.clone(), metadata));
            proof {
                assert(class_type@.methods =~= before.push((decl.methods@[j as int].0@, def.metadata@)));
                assert(class_type@.methods.subrange(0, nm as int) =~= before.subrange(0, nm as int));
            }
            methods.push((decl.methods[j].0.clone(), def));
            j = j + 1;
        }
        let ghost c1 = class_type@;
        let mut j: usize = 0;
        while j < decl.fields.len()
            invariant
                m == scope.map(),
                g == scope.globals_v(),
                m == decls_map(g),
                j <= decl.fields@.len(),
                methods@.len() == decl.methods@.len(),
                c0 == old(class_type)@,
                class_type@.name == c0.name,
                class_type@.module == c0.module,
                class_type@.kind == c0.kind,
                class_type@.methods.len() == nm + decl.methods@.len(),
                class_type@.methods.subrange(0, nm as int) == c0.methods,
                forall|t: int| 0 <= t < decl.methods@.len() ==> {
                    &&& (#[trigger] methods@[t]).0@ == decl.methods@[t].0@
                    &&& function_defined(g, pm.tokens.tokens@, scope.uid.0, decl.methods@[t].1, methods@[t].1, Some((c0.name, c0.module)))
                    &&& class_type@.methods[nm + t] == (decl.methods@[t].0@, methods@[t].1.metadata@)
                },
                class_type@.fields.len() == nf + j,
                class_type@.fields.subrange(0, nf as int) == c0.fields,
                idx < self.modules@.len(),
                pm == self.modules@[idx as int].1.module,
                decl == pm.classes@[i as int].1,
                i < pm.classes@.len(),
                functions_error(g, pm.tokens.tokens@, scope.uid.0, decl.methods@, Some((c0.name, c0.module)), 0) is None,
                fields_error(m, decl.fields@, 0) == fields_error(m, decl.fields@, j as nat),
                fill_fields_spec(m, decl.fields@, c1, 0).0 == fill_fields_spec(m, decl.fields@, class_type@, j as nat).0,
                c1 == filled_methods(g, pm.tokens.tokens@, scope.uid.0, decl.methods@, (c0.name, c0.module), c0, 0),
                forall|t: int| 0 <= t < j ==>
                    (#[trigger] class_type@.fields[nf + t]).0 == decl.fields@[t].0@
                        && convert_spec(m, decl.fields@[t].1@) == Some(class_type@.fields[nf + t].1),
            decreases decl.fields@.len() - j,
        {
            let field = match scope.convert_parsable_type(&decl.fields[j].1) {
                Ok(f) => f,
                Err(e) => return Err(e),
            };
            let ghost before = class_type@.fields;
            class_type.fields.push((decl.fields[j].0.clone(), field));
            proof {
                assert(class_type@.fields =~= before.push((decl.fields@[j as int].0@, field@)));
                assert(class_type@.fields.subrange(0, nf as int) =~= before.subrange(0, nf as int));
            }
            j = j + 1;
        }
        Ok(methods)
    }
}

/// Lists that hold the same modules find the same module for an identifier.
proof fn lemma_same_modules_index(a: Seq<(ModuleUID, ParsingModule)>, b: Seq<(ModuleUID, ParsingModule)>, uid: u64)
    requires
        same_modules(a, b),
    ensures
        module_index(a, uid) == module_index(b, uid),
    decreases a.len(),
{
    if a.len() > 0 {
        assert(a.last().0 == b.last().0);
        assert(same_modules(a.drop_last(), b.drop_last())) by {
            assert forall|i: int| 0 <= i < a.len() - 1 implies {
                &&& (#[trigger] a.drop_last()[i]).0 == b.drop_last()[i].0
                &&& a.drop_last()[i].1.module == b.drop_last()[i].1.module
                &&& entry_names(a.drop_last()[i].1.types@) == entry_names(b.drop_last()[i].1.types@)
            } by {
                assert(a.drop_last()[i] == a[i]);
                assert(b.drop_last()[i] == b[i]);
            }
        }
        lemma_same_modules_index(a.drop_last(), b.drop_last(), uid);
    }
}

/// Holding the same modules keeps them fitting the limits.
proof fn lemma_fits_kept(a: Seq<(ModuleUID, ParsingModule)>, b: Seq<(ModuleUID, ParsingModule)>)
    requires
        same_modules(a, b),
        forall|i: int| 0 <= i < a.len() ==> module_fits((#[trigger] a[i]).1.module),
    ensures
        forall|i: int| 0 <= i < b.len() ==> module_fits((#[trigger] b[i]).1.module),
{
    assert forall|i: int| 0 <= i < b.len() implies module_fits((#[trigger] b[i]).1.module) by {
        assert(a[i].1.module == b[i].1.module);
    }
}

impl ModuleParser {
    /// Parses the definitions of module `idx` in `scope`. The class descriptions that it fills
    /// in are added to `to_store`, also when it fails half way.
    fn define_features(
        &self,
        idx: usize,
        uid: ModuleUID,
        scope: &ParserModuleScope,
        resolved: &Vec<Option<ModuleUID>>,
        to_store: &mut Vec<ClassType>,
    ) -> (r: Result<Module, LangError>)
        requires
            idx < self.modules@.len(),
            module_fits(self.modules@[idx as int].1.module),
            resolved@.len() == self.modules@[idx as int].1.module.imports@.len(),
            scope.uid.0 == uid.0,
        ensures
            r matches Ok(md) ==> module_defined(self.modules@[idx as int].1.module, uid, resolved@, md, scope.globals_v()),
            fails_with(r, features_error(scope.globals_v(), uid.0, self.modules@[idx as int].1.module, resolved@)),
            class_views(final(to_store)@) == class_views(old(to_store)@)
                + features_stored(scope.globals_v(), uid.0, self.modules@[idx as int].1.module),
    {
        proof {
            lemma_globals_view(scope.globals@);
        }
        let ghost m = scope.map();
        let ghost g = scope.globals_v();
        let pm = &self.modules[idx].1.module;
        let ghost toks = pm.tokens.tokens@;
        let nv = pm.variables.len();
        let nf = pm.functions.len();
        let nc = pm.classes.len();
        let mut features: Vec<(String, ModuleFeature)> = Vec::new();

        let mut i: usize = 0;
        while i < nv
            invariant
                idx < self.modules@.len(),
                pm == self.modules@[idx as int].1.module,
                module_fits(*pm),
                m == scope.map(),
                g == scope.globals_v(),
                m == decls_map(g),
                scope.uid.0 == uid.0,
                toks == pm.tokens.tokens@,
                nv == pm.variables@.len(),
                i <= nv,
                features@.len() == i,
                variables_error(toks, m, pm.variables@, 0) == variables_error(toks, m, pm.variables@, i as nat),
                to_store@ == old(to_store)@,
                forall|t: int| 0 <= t < i ==> (#[trigger] features@[t]).0@ == pm.variables@[t].0@
                    && (features@[t].1 matches ModuleFeature::Variable(d) && variable_defined(toks, m, pm.variables@[t].1, d)),
            decreases nv - i,
        {
            let def = match self.define_variable(scope, idx, i) {
                Ok(d) => d,
                Err(e) => return Err(e),
            };
            let ghost g = def;
            features.push((pm.variables[i].0.clone(), ModuleFeature::Variable(def)));
            proof {
                assert(features@[i as int].1 == ModuleFeature::Variable(g));
            }
            i = i + 1;
        }

        let mut i: usize = 0;
        while i < nf
            invariant
                idx < self.modules@.len(),
                pm == self.modules@[idx as int].1.module,
                module_fits(*pm),
                m == scope.map(),
                g == scope.globals_v(),
                m == decls_map(g),
                scope.uid.0 == uid.0,
                toks == pm.tokens.tokens@,
                nv == pm.variables@.len(),
                nf == pm.functions@.len(),
                i <= nf,
                features@.len() == nv + i,
                variables_error(toks, m, pm.variables@, 0) is None,
                functions_error(g, toks, uid.0, pm.functions@, None, 0) == functions_error(g, toks, uid.0, pm.functions@, None, i as nat),
                to_store@ == old(to_store)@,
                forall|t: int| 0 <= t < nv ==> (#[trigger] features@[t]).0@ == pm.variables@[t].0@
                    && (features@[t].1 matches ModuleFeature::Variable(d) && variable_defined(toks, m, pm.variables@[t].1, d)),
                forall|t: int| 0 <= t < i ==> (#[trigger] features@[nv + t]).0@ == pm.functions@[t].0@
                    && (features@[nv + t].1 matches ModuleFeature::Function(d) && function_defined(g, toks, uid.0, pm.functions@[t].1, d, None)),
            decreases nf - i,
        {
            proof {
                assert(module_fits(*pm));
            }
            let def = match self.define_function(scope, idx, &pm.functions[i].1, None) {
                Ok(d) => d,
                Err(e) => return Err(e),
            };
            let ghost g = def;
            features.push((pm.functions[i].0.clone(), ModuleFeature::Function(def)));
            proof {
                assert(features@[nv + i].1 == ModuleFeature::Function(g));
            }
            i = i + 1;
        }

        let mut i: usize = 0;
        while i < nc
            invariant
                idx < self.modules@.len(),
                pm == self.modules@[idx as int].1.module,
                module_fits(*pm),
                m == scope.map(),
                g == scope.globals_v(),
                m == decls_map(g),
                scope.uid.0 == uid.0,
                toks == pm.tokens.tokens@,
                nv == pm.variables@.len(),
                nf == pm.functions@.len(),
                nc == pm.classes@.len(),
                i <= nc,
                features@.len() == nv + nf + i,
                variables_error(toks, m, pm.variables@, 0) is None,
                functions_error(g, toks, uid.0, pm.functions@, None, 0) is None,
                classes_error(g, toks, uid.0, pm.classes@, 0) == classes_error(g, toks, uid.0, pm.classes@, i as nat),
                class_views(old(to_store)@) + stored_classes(g, toks, uid.0, pm.classes@, 0)
                    == class_views(to_store@) + stored_classes(g, toks, uid.0, pm.classes@, i as nat),
                forall|t: int| 0 <= t < nv ==> (#[trigger] features@[t]).0@ == pm.variables@[t].0@
                    && (features@[t].1 matches ModuleFeature::Variable(d) && variable_defined(toks, m, pm.variables@[t].1, d)),
                forall|t: int| 0 <= t < nf ==> (#[trigger] features@[nv + t]).0@ == pm.functions@[t].0@
                    && (features@[nv + t].1 matches ModuleFeature::Function(d) && function_defined(g, toks, uid.0, pm.functions@[t].1, d, None)),
                forall|t: int| 0 <= t < i ==> (#[trigger] features@[nv + nf + t]).0@ == pm.classes@[t].0@
                    && (features@[nv + nf + t].1 matches ModuleFeature::Class(d)
                        && class_defined(g, toks, uid.0, pm.classes@[t].0@, pm.classes@[t].1, d)),
            decreases nc - i,
        {
            let name = &pm.classes[i].0;
            let mut class_type = match scope.get(name) {
                ScopeGetResult::Class(_, c) => c,
                _ => return Err(LangError::build(BuildErrorKind::UnexpectedError)),
            };
            let defined = self.define_class(scope, idx, i, &mut class_type);
            let ghost stored_before = to_store@;
            to_store.push(class_type.clone_class());
            proof {
                let rest = stored_classes(g, toks, uid.0, pm.classes@, (i + 1) as nat);
                assert(class_views(to_store@) =~= class_views(stored_before).push(class_type@));
                assert(class_views(stored_before) + (seq![class_type@] + rest) =~= class_views(to_store@) + rest);
                assert(class_views(stored_before) + seq![class_type@] =~= class_views(to_store@));
            }
            let methods = match defined {
                Ok(methods) => methods,
                Err(e) => return Err(e),
            };
            let def = ClassDefinition { data: Class::new(methods), metadata: class_type };
            let ghost g = def;
            features.push((name.clone(), ModuleFeature::Class(def)));
            proof {
                assert(features@[nv + nf + i].1 == ModuleFeature::Class(g));
            }
            i = i + 1;
        }

        let ni = pm.imports.len();
        let mut imports: Vec<ModuleUID> = Vec::new();
        let mut k: usize = 0;
        while k < ni
            invariant
                ni == pm.imports@.len(),
                ni == resolved@.len(),
                k <= ni,
                imports@.len() == k,
                idx < self.modules@.len(),
                pm == self.modules@[idx as int].1.module,
                g == scope.globals_v(),
                scope.uid.0 == uid.0,
                toks == pm.tokens.tokens@,
                variables_error(toks, decls_map(g), pm.variables@, 0) is None,
                functions_error(g, toks, uid.0, pm.functions@, None, 0) is None,
                classes_error(g, toks, uid.0, pm.classes@, 0) is None,
                imports_error(resolved@, pm.imports@, 0) == imports_error(resolved@, pm.imports@, k as nat),
                class_views(to_store@) == class_views(old(to_store)@) + features_stored(g, uid.0, *pm),
                forall|t: int| 0 <= t < k ==> #[trigger] resolved@[t] == Some(imports@[t]),
            decreases ni - k,
        {
            let u = match resolved[k] {
                Some(u) => u,
                None => return Err(LangError::load(LoadErrorKind::LoadModuleError(pm.imports[k].0.clone()))),
            };
            imports.push(u);
            k = k + 1;
        }

        let md = Module { id: ModuleIdentifier(pm.id.0.clone()), uid, imports, features };
        proof {
            assert forall|t: int| 0 <= t < nv + nf + nc implies #[trigger] md.features@[t] == features@[t] by {}
        }
        Ok(md)
    }

    /// Records filled-in class descriptions in the modules that own them.
    fn store_classes(&mut self, classes: &Vec<ClassType>)
        ensures
            same_modules(old(self).modules@, final(self).modules@),
            state_view(final(self).modules@) == stores_spec(state_view(old(self).modules@), class_views(classes@)),
    {
        let ghost cs = class_views(classes@);
        let mut i: usize = 0;
        proof {
            assert(cs.skip(0) =~= cs);
        }
        while i < classes.len()
            invariant
                i <= classes@.len(),
                cs == class_views(classes@),
                same_modules(old(self).modules@, self.modules@),
                stores_spec(state_view(old(self).modules@), cs) == stores_spec(state_view(self.modules@), cs.skip(i as int)),
            decreases classes@.len() - i,
        {
            proof {
                assert(cs.skip(i as int).drop_first() =~= cs.skip(i + 1));
                assert(cs.skip(i as int)[0] == classes@[i as int]@);
            }
            self.store_class(&classes[i]);
            i = i + 1;
        }
        proof {
            assert(cs.skip(i as int) =~= Seq::<ClassTypeV>::empty());
        }
    }

    /// Parses module `uid`, whose imports resolve to `resolved` (one entry per import, `None`
    /// where an import names no module).
    pub fn parse_resolved_module(&mut self, uid: ModuleUID, resolved: &Vec<Option<ModuleUID>>) -> (r: Result<Module, LangError>)
        requires
            old(self).fits(),
            module_index(old(self).modules@, uid.0) matches Some(i)
                ==> resolved@.len() == old(self).modules@[i].1.module.imports@.len(),
        ensures
            same_modules(old(self).modules@, final(self).modules@),
            final(self).fits(),
            parsed_as(old(self).modules@, uid, resolved@, r),
            state_view(final(self).modules@) == parsed_state(old(self).modules@, uid, resolved@),
    {
        let idx = match self.find_module(uid) {
            Some(idx) => idx,
            None => {
                return Err(LangError::parser(
                    &Token::new(TokenKind::NewLine, 0, 0),
                    ParserErrorKind::UnexpectedError(String::from_str(MODULE_NOT_FOUND_MESSAGE)),
                ));
            },
        };

        proof {
            lemma_state_index(self.modules@, uid.0);
            lemma_state_index_bounds(state_view(self.modules@), uid.0);
        }
        let created = self.create_scope(idx, resolved);
        proof {
            lemma_fits_kept(old(self).modules@, self.modules@);
        }
        let scope = created?;
        proof {
            assert(module_fits(self.modules@[idx as int].1.module));
        }

        let mut to_store: Vec<ClassType> = Vec::new();
        let result = self.define_features(idx, uid, &scope, resolved, &mut to_store);
        let ghost before = self.modules@;
        self.store_classes(&to_store);
        proof {
            lemma_fits_kept(old(self).modules@, self.modules@);
            if let Ok(ref md) = result {
                assert(module_defined(before[idx as int].1.module, uid, resolved@, *md, scope.globals_v()));
            }
        }
        result
    }

    /// Parses module `uid`: resolves its imports with `importer`, then defines everything that
    /// the module declares, with the names of classes resolved in the scope of its globals.
    pub fn parse_module<I: ModuleImporter>(&mut self, uid: ModuleUID, importer: &I) -> (r: Result<Module, LangError>)
        requires
            old(self).fits(),
        ensures
            same_modules(old(self).modules@, final(self).modules@),
            final(self).fits(),
            exists|resolved: Seq<Option<ModuleUID>>| #[trigger] parsed_as(old(self).modules@, uid, resolved, r)
                && state_view(final(self).modules@) == parsed_state(old(self).modules@, uid, resolved)
                && match module_index(old(self).modules@, uid.0) {
                    Some(i) => resolved.len() == old(self).modules@[i].1.module.imports@.len()
                        && forall|k: int| 0 <= k < resolved.len()
                            ==> importer.resolves(old(self).modules@[i].1.module.imports@[k], #[trigger] resolved[k]),
                    None => resolved.len() == 0,
                },
    {
        let mut resolved: Vec<Option<ModuleUID>> = Vec::new();
        match self.find_module(uid) {
            Some(idx) => {
                let imports = &self.modules[idx].1.module.imports;
                let mut k: usize = 0;
                while k < imports.len()
                    invariant
                        k <= imports@.len(),
                        resolved@.len() == k,
                        forall|j: int| 0 <= j < k ==> importer.resolves(imports@[j], #[trigger] resolved@[j]),
                    decreases imports@.len() - k,
                {
                    resolved.push(importer.get_unique_identifier(&imports[k]));
                    k = k + 1;
                }
            },
            None => {},
        }
        let r = self.parse_resolved_module(uid, &resolved);
        proof {
            assert(parsed_as(old(self).modules@, uid, resolved@, r));
        }
        r
    }

    /// Tells whether every module fits the limits of a scope.
    pub fn check_fits(&self) -> (r: bool)
        ensures
            r == self.fits(),
    {
        let mut i: usize = 0;
        while i < self.modules.len()
            invariant
                i <= self.modules@.len(),
                forall|t: int| 0 <= t < i ==> module_fits((#[trigger] self.modules@[t]).1.module),
            decreases self.modules@.len() - i,
        {
            if !check_module_fits(&self.modules[i].1.module) {
                return false;
            }
            i = i + 1;
        }
        true
    }

    /// Parses module `uid` as `parse_module` does, where every module fits the limits of a
    /// scope; gives `None`, and changes nothing, where one does not.
    pub fn parse_module_checked<I: ModuleImporter>(&mut self, uid: ModuleUID, importer: &I)
        -> (r: Option<Result<Module, LangError>>)
        ensures
            r is None <==> !old(self).fits(),
            r is None ==> *final(self) == *old(self),
            r matches Some(res) ==> {
                &&& same_modules(old(self).modules@, final(self).modules@)
                &&& final(self).fits()
                &&& exists|resolved: Seq<Option<ModuleUID>>| #[trigger] parsed_as(old(self).modules@, uid, resolved, res)
                    && state_view(final(self).modules@) == parsed_state(old(self).modules@, uid, resolved)
                    && match module_index(old(self).modules@, uid.0) {
                        Some(i) => resolved.len() == old(self).modules@[i].1.module.imports@.len()
                            && forall|k: int| 0 <= k < resolved.len()
                                ==> importer.resolves(old(self).modules@[i].1.module.imports@[k], #[trigger] resolved[k]),
                        None => resolved.len() == 0,
                    }
            },
    {
        if self.check_fits() {
            Some(self.parse_module(uid, importer))
        } else {
            None
        }
    }
}

/// The latest entry of a name in a block gives its type.
proof fn lemma_frame_lookup_latest(names: Seq<Seq<char>>, types: Seq<TypeV>, k: Seq<char>, i: int)
    requires
        0 <= i < names.len(),
        names[i] == k,
        forall|j: int| i < j < names.len() ==> names[j] != k,
    ensures
        frame_lookup(names, types, k) == Some(types[i]),
    decreases names.len(),
{
    if i < names.len() - 1 {
        assert(names[names.len() - 1] != k);
        assert forall|j: int| i < j < names.drop_last().len() implies names.drop_last()[j] != k by {
            assert(names.drop_last()[j] == names[j]);
        }
        lemma_frame_lookup_latest(names.drop_last(), types, k, i);
    }
}

/// In the block that a function body is parsed in, the i-th parameter's name gives the i-th
/// parameter type, unless a later parameter has the same name; in a method, `self` gives the
/// method's class, unless a parameter is named `self`.
pub proof fn law_parameters_typed_in_order(params: Seq<Seq<char>>, types: Seq<TypeV>, method: Option<(Seq<char>, u64)>, i: int)
    requires
        params.len() == types.len(),
    ensures
        0 <= i < params.len() && (forall|j: int| i < j < params.len() ==> params[j] != params[i])
            ==> frames_lookup(seq![function_frame(params, types, method)], params[i]) == Some(types[i]),
        method matches Some((c, u)) ==> ((forall|j: int| 0 <= j < params.len() ==> params[j] != CLASS_SELF_REFERENCE@)
            ==> frames_lookup(seq![function_frame(params, types, method)], CLASS_SELF_REFERENCE@) == Some(TypeV::Class(c, u))),
{
    let f = function_frame(params, types, method);
    let fs = seq![f];
    assert(fs.drop_last() =~= Seq::<FrameV>::empty());
    assert(fs.last() == f);
    let k: int = if method is Some { 1 } else { 0 };
    assert forall|j: int| 0 <= j < params.len() implies f.names[k + j] == params[j] && f.types[k + j] == types[j] by {}
    if 0 <= i < params.len() && (forall|j: int| i < j < params.len() ==> params[j] != params[i]) {
        assert forall|j: int| k + i < j < f.names.len() implies f.names[j] != params[i] by {
            assert(f.names[k + (j - k)] == params[j - k]);
        }
        lemma_frame_lookup_latest(f.names, f.types, params[i], k + i);
    }
    if method matches Some((c, u)) {
        if forall|j: int| 0 <= j < params.len() ==> params[j] != CLASS_SELF_REFERENCE@ {
            assert forall|j: int| 0 < j < f.names.len() implies f.names[j] != CLASS_SELF_REFERENCE@ by {
                assert(f.names[1 + (j - 1)] == params[j - 1]);
            }
            lemma_frame_lookup_latest(f.names, f.types, CLASS_SELF_REFERENCE@, 0);
        }
    }
}

} // verus!
