use vstd::prelude::*;
use crate::class::{ClassType, ClassTypeV};
use crate::errors::{BuildErrorKind, LangError, LoadErrorKind};
use crate::module::{ModuleIdentifier, ModuleUID, last_named};
use crate::module_parser::{ParsingModule, module_index};
use crate::module_preparser::{ParsableClass, ParsableFunction, ParsableModule, ParsableVariable};
use crate::module_scope::{GlobalV, ScopeGetV, convert_fn_spec, convert_spec, decls_map, global_get, unknown_type_error};
use crate::parsing_types::ParsableType;
use crate::parsing_types::ptypes_view;
use crate::types::TypeV;

verus! {

/// What parsing changes of a module while it builds scopes: the descriptions of its classes
/// and whether their fields and methods were filled in.
pub struct ModuleStateV {
    pub uid: u64,
    pub types: Seq<(Seq<char>, ClassTypeV)>,
    pub loaded: bool,
}

/// The class descriptions of a module, each by its view.
pub open spec fn class_types_view(t: Seq<(String, ClassType)>) -> Seq<(Seq<char>, ClassTypeV)> {
    t.map_values(|p: (String, ClassType)| (p.0@, p.1@))
}

/// The state of each module, in order.
pub open spec fn state_view(s: Seq<(ModuleUID, ParsingModule)>) -> Seq<ModuleStateV> {
    s.map_values(|p: (ModuleUID, ParsingModule)| ModuleStateV { uid: p.0.0, types: class_types_view(p.1.types@), loaded: p.1.loaded })
}

/// The index of the last class description named `name`.
pub open spec fn last_class(t: Seq<(Seq<char>, ClassTypeV)>, name: Seq<char>) -> Option<int>
    decreases t.len(),
{
    if t.len() == 0 {
        None
    } else if t.last().0 == name {
        Some(t.len() - 1)
    } else {
        last_class(t.drop_last(), name)
    }
}

/// The index of the last module with identifier `uid`.
pub open spec fn state_index(st: Seq<ModuleStateV>, uid: u64) -> Option<int>
    decreases st.len(),
{
    if st.len() == 0 {
        None
    } else if st.last().uid == uid {
        Some(st.len() - 1)
    } else {
        state_index(st.drop_last(), uid)
    }
}

/// The error for a step that the parsing of modules does not expect to fail.
pub open spec fn unexpected_build_error() -> LangError {
    LangError::Build { kind: BuildErrorKind::UnexpectedError }
}

/// Declaring, from position `i` on, the classes `classes` of module `u` with the descriptions
/// that `types` holds for them.
pub open spec fn classes_spec(g: Seq<(Seq<char>, GlobalV)>, classes: Seq<(String, ParsableClass)>,
    types: Seq<(Seq<char>, ClassTypeV)>, u: u64, i: nat) -> Result<Seq<(Seq<char>, GlobalV)>, LangError>
    decreases classes.len() - i,
{
    if i >= classes.len() {
        Ok(g)
    } else {
        match last_class(types, classes[i as int].0@) {
            None => Err(unexpected_build_error()),
            Some(j) => classes_spec(g.push((classes[i as int].0@, GlobalV::Class(u, types[j].1))), classes, types, u, i + 1),
        }
    }
}

/// Adding to class `c`, from position `k` on, the methods `methods` with their types resolved in
/// `m`; the first one that does not resolve stops it with the error.
pub open spec fn fill_methods_spec(m: Map<Seq<char>, GlobalV>, methods: Seq<(String, ParsableFunction)>, c: ClassTypeV, k: nat)
    -> (ClassTypeV, Result<(), LangError>)
    decreases methods.len() - k,
{
    if k >= methods.len() {
        (c, Ok(()))
    } else {
        let ft = methods[k as int].1.func_type;
        match convert_fn_spec(m, ptypes_view(ft.0@), (*ft.1)@) {
            None => (c, Err(unknown_type_error())),
            Some(f) => fill_methods_spec(m, methods, ClassTypeV { methods: c.methods.push((methods[k as int].0@, f)), ..c }, k + 1),
        }
    }
}

/// Adding to class `c`, from position `k` on, the fields `fields` with their types resolved in
/// `m`; the first one that does not resolve stops it with the error.
pub open spec fn fill_fields_spec(m: Map<Seq<char>, GlobalV>, fields: Seq<(String, ParsableType)>, c: ClassTypeV, k: nat)
    -> (ClassTypeV, Result<(), LangError>)
    decreases fields.len() - k,
{
    if k >= fields.len() {
        (c, Ok(()))
    } else {
        match convert_spec(m, fields[k as int].1@) {
            None => (c, Err(unknown_type_error())),
            Some(t) => fill_fields_spec(m, fields, ClassTypeV { fields: c.fields.push((fields[k as int].0@, t)), ..c }, k + 1),
        }
    }
}

/// Adding to class `c` the methods, then the fields, that `pclass` declares.
pub open spec fn fill_spec(m: Map<Seq<char>, GlobalV>, pclass: ParsableClass, c: ClassTypeV) -> (ClassTypeV, Result<(), LangError>) {
    let (c1, r1) = fill_methods_spec(m, pclass.methods@, c, 0);
    match r1 {
        Err(e) => (c1, Err(e)),
        Ok(_) => fill_fields_spec(m, pclass.fields@, c1, 0),
    }
}

/// Recording a filled-in class description in the module that owns it, in place of the last
/// description of that name; nothing changes where there is none.
pub open spec fn store_spec(st: Seq<ModuleStateV>, c: ClassTypeV) -> Seq<ModuleStateV> {
    match state_index(st, c.module) {
        None => st,
        Some(i) => match last_class(st[i].types, c.name) {
            None => st,
            Some(j) => st.update(i, ModuleStateV { types: st[i].types.update(j, (st[i].types[j].0, c)), ..st[i] }),
        },
    }
}

/// Filling in, from position `i` on, the classes `classes` that `m` declares: each is filled,
/// declared again and recorded; a name that does not give a class, or a declared type that does
/// not resolve, stops it with the error.
pub open spec fn load_classes_spec(g: Seq<(Seq<char>, GlobalV)>, st: Seq<ModuleStateV>, classes: Seq<(String, ParsableClass)>, i: nat)
    -> (Result<(), LangError>, Seq<(Seq<char>, GlobalV)>, Seq<ModuleStateV>)
    decreases classes.len() - i,
{
    if i >= classes.len() {
        (Ok(()), g, st)
    } else {
        let name = classes[i as int].0@;
        match global_get(decls_map(g), name) {
            ScopeGetV::Class(u, c) => {
                let (c2, fr) = fill_spec(decls_map(g), classes[i as int].1, c);
                let g2 = g.push((name, GlobalV::Class(u, c2)));
                let st2 = store_spec(st, c2);
                match fr {
                    Err(e) => (Err(e), g2, st2),
                    Ok(_) => load_classes_spec(g2, st2, classes, i + 1),
                }
            },
            _ => (Err(unexpected_build_error()), g, st),
        }
    }
}

/// Filling in, once, the classes of module `idx`; afterwards it counts as loaded.
pub open spec fn load_spec(g: Seq<(Seq<char>, GlobalV)>, st: Seq<ModuleStateV>, mods: Seq<(ModuleUID, ParsingModule)>, idx: int)
    -> (Result<(), LangError>, Seq<(Seq<char>, GlobalV)>, Seq<ModuleStateV>)
{
    if st[idx].loaded {
        (Ok(()), g, st)
    } else {
        let (r, g2, st2) = load_classes_spec(g, st, mods[idx].1.module.classes@, 0);
        match r {
            Err(e) => (Err(e), g2, st2),
            Ok(_) => (Ok(()), g2, st2.update(idx, ModuleStateV { loaded: true, ..st2[idx] })),
        }
    }
}

/// Declaring, from position `k` on, the variables `vars` of module `u` with their types resolved
/// in the scope as it grows.
pub open spec fn vars_spec(g: Seq<(Seq<char>, GlobalV)>, vars: Seq<(String, ParsableVariable)>, u: u64, k: nat)
    -> Result<Seq<(Seq<char>, GlobalV)>, LangError>
    decreases vars.len() - k,
{
    if k >= vars.len() {
        Ok(g)
    } else {
        match convert_spec(decls_map(g), vars[k as int].1.type_kind@) {
            None => Err(unknown_type_error()),
            Some(t) => vars_spec(g.push((vars[k as int].0@, GlobalV::Var(u, t))), vars, u, k + 1),
        }
    }
}

/// Declaring, from position `k` on, the functions `funcs` of module `u` with their types
/// resolved in the scope as it grows.
pub open spec fn funcs_spec(g: Seq<(Seq<char>, GlobalV)>, funcs: Seq<(String, ParsableFunction)>, u: u64, k: nat)
    -> Result<Seq<(Seq<char>, GlobalV)>, LangError>
    decreases funcs.len() - k,
{
    if k >= funcs.len() {
        Ok(g)
    } else {
        let ft = funcs[k as int].1.func_type;
        match convert_fn_spec(decls_map(g), ptypes_view(ft.0@), (*ft.1)@) {
            None => Err(unknown_type_error()),
            Some(f) => funcs_spec(g.push((funcs[k as int].0@, GlobalV::Func(u, f))), funcs, u, k + 1),
        }
    }
}

/// Declaring the variables, then the functions, of module `p` as module `u`'s.
pub open spec fn values_spec(g: Seq<(Seq<char>, GlobalV)>, p: ParsableModule, u: u64) -> Result<Seq<(Seq<char>, GlobalV)>, LangError> {
    match vars_spec(g, p.variables@, u, 0) {
        Err(e) => Err(e),
        Ok(g1) => funcs_spec(g1, p.functions@, u, 0),
    }
}

/// The error for an import that names no module.
pub open spec fn import_error(id: ModuleIdentifier) -> LangError {
    LangError::Load { kind: LoadErrorKind::LoadModuleError(id.0) }
}

/// Declaring, from position `k` on, the classes of the imported modules (`resolved` gives their
/// identifiers).
pub open spec fn import_classes_spec(g: Seq<(Seq<char>, GlobalV)>, mods: Seq<(ModuleUID, ParsingModule)>, st: Seq<ModuleStateV>,
    resolved: Seq<Option<ModuleUID>>, imports: Seq<ModuleIdentifier>, k: nat) -> Result<Seq<(Seq<char>, GlobalV)>, LangError>
    decreases resolved.len() - k,
{
    if k >= resolved.len() {
        Ok(g)
    } else {
        match resolved[k as int] {
            None => Err(import_error(imports[k as int])),
            Some(u) => match module_index(mods, u.0) {
                None => Err(unexpected_build_error()),
                Some(mi) => match classes_spec(g, mods[mi].1.module.classes@, st[mi].types, u.0, 0) {
                    Err(e) => Err(e),
                    Ok(g2) => import_classes_spec(g2, mods, st, resolved, imports, k + 1),
                },
            },
        }
    }
}

/// Filling in the classes, then declaring the values, of the imported modules from position `k`
/// on.
pub open spec fn import_values_spec(g: Seq<(Seq<char>, GlobalV)>, mods: Seq<(ModuleUID, ParsingModule)>, st: Seq<ModuleStateV>,
    resolved: Seq<Option<ModuleUID>>, imports: Seq<ModuleIdentifier>, k: nat)
    -> (Result<Seq<(Seq<char>, GlobalV)>, LangError>, Seq<ModuleStateV>)
    decreases resolved.len() - k,
{
    if k >= resolved.len() {
        (Ok(g), st)
    } else {
        match resolved[k as int] {
            None => (Err(import_error(imports[k as int])), st),
            Some(u) => match module_index(mods, u.0) {
                None => (Err(unexpected_build_error()), st),
                Some(mi) => {
                    let (r, g2, st2) = load_spec(g, st, mods, mi);
                    match r {
                        Err(e) => (Err(e), st2),
                        Ok(_) => match values_spec(g2, mods[mi].1.module, u.0) {
                            Err(e) => (Err(e), st2),
                            Ok(g3) => import_values_spec(g3, mods, st2, resolved, imports, k + 1),
                        },
                    }
                },
            },
        }
    }
}

/// The scope of the globals of module `idx` and the state of the modules afterwards: the classes
/// of the module, the classes of the modules it imports, its classes filled in, its variables and
/// functions, then the classes filled in and the values of each imported module.
pub open spec fn scope_spec(mods: Seq<(ModuleUID, ParsingModule)>, st: Seq<ModuleStateV>, idx: int, resolved: Seq<Option<ModuleUID>>)
    -> (Result<Seq<(Seq<char>, GlobalV)>, LangError>, Seq<ModuleStateV>)
{
    let uid = mods[idx].0.0;
    let p = mods[idx].1.module;
    match classes_spec(Seq::empty(), p.classes@, st[idx].types, uid, 0) {
        Err(e) => (Err(e), st),
        Ok(g1) => match import_classes_spec(g1, mods, st, resolved, p.imports@, 0) {
            Err(e) => (Err(e), st),
            Ok(g2) => {
                let (r3, g3, st3) = load_spec(g2, st, mods, idx);
                match r3 {
                    Err(e) => (Err(e), st3),
                    Ok(_) => match values_spec(g3, p, uid) {
                        Err(e) => (Err(e), st3),
                        Ok(g4) => import_values_spec(g4, mods, st3, resolved, p.imports@, 0),
                    },
                }
            },
        },
    }
}

/// Finding the last entry of a name among class descriptions finds it among their views.
pub proof fn lemma_last_class(t: Seq<(String, ClassType)>, name: Seq<char>)
    ensures
        last_named(t, name) == last_class(class_types_view(t), name),
    decreases t.len(),
{
    if t.len() > 0 {
        assert(class_types_view(t.drop_last()) == class_types_view(t).drop_last());
        lemma_last_class(t.drop_last(), name);
    }
}

/// Finding the last module with an identifier finds it in the state too.
pub proof fn lemma_state_index(s: Seq<(ModuleUID, ParsingModule)>, uid: u64)
    ensures
        module_index(s, uid) == state_index(state_view(s), uid),
    decreases s.len(),
{
    if s.len() > 0 {
        assert(state_view(s.drop_last()) == state_view(s).drop_last());
        lemma_state_index(s.drop_last(), uid);
    }
}

/// The last entry of a name is within bounds and has that name.
pub proof fn lemma_last_class_bounds(t: Seq<(Seq<char>, ClassTypeV)>, name: Seq<char>)
    ensures
        last_class(t, name) matches Some(j) ==> 0 <= j < t.len() && t[j].0 == name,
    decreases t.len(),
{
    if t.len() > 0 {
        lemma_last_class_bounds(t.drop_last(), name);
    }
}

/// The last module of an identifier is within bounds and has that identifier.
pub proof fn lemma_state_index_bounds(st: Seq<ModuleStateV>, uid: u64)
    ensures
        state_index(st, uid) matches Some(i) ==> 0 <= i < st.len() && st[i].uid == uid,
    decreases st.len(),
{
    if st.len() > 0 {
        lemma_state_index_bounds(st.drop_last(), uid);
    }
}

} // verus!
