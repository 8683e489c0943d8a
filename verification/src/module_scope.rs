use vstd::prelude::*;
use crate::class::{ClassType, ClassTypeV};
use crate::module::ModuleUID;
use crate::errors::{BuildErrorKind, LangError};
use crate::parsing_types::{ParsableFunctionType, ParsableType, ParsableTypeV, primitive_ptype, ptypes_view, lemma_ptypes_view_len};
use crate::types::{ClassRef, FunctionType, FunctionTypeV, PrimitiveType, TypeKind, TypeV, primitive_type, types_view, lemma_types_view_len};

verus! {

broadcast use {vstd::std_specs::vec::axiom_spec_len, vstd::std_specs::vec::axiom_vec_decreases_to_view};

/// What looking up a name gives: a class, a value of some type, or nothing.
#[derive(Debug, PartialEq, Eq)]
pub enum ScopeGetResult {
    Class(ModuleUID, ClassType),
    Ref(ModuleUID, TypeKind),
    NotFound,
}

pub enum ScopeGetV {
    Class(u64, ClassTypeV),
    Ref(u64, TypeV),
    NotFound,
}

impl View for ScopeGetResult {
    type V = ScopeGetV;

    open spec fn view(&self) -> ScopeGetV {
        match self {
            ScopeGetResult::Class(uid, c) => ScopeGetV::Class(uid.0, c@),
            ScopeGetResult::Ref(uid, t) => ScopeGetV::Ref(uid.0, t@),
            ScopeGetResult::NotFound => ScopeGetV::NotFound,
        }
    }
}

/// A global declaration of a module, with the module that declares it.
#[derive(Debug, PartialEq, Eq)]
pub enum GlobalKind {
    Var(ModuleUID, TypeKind),
    Func(ModuleUID, FunctionType),
    Class(ModuleUID, ClassType),
}

pub enum GlobalV {
    Var(u64, TypeV),
    Func(u64, FunctionTypeV),
    Class(u64, ClassTypeV),
}

impl View for GlobalKind {
    type V = GlobalV;

    open spec fn view(&self) -> GlobalV {
        match self {
            GlobalKind::Var(uid, t) => GlobalV::Var(uid.0, t@),
            GlobalKind::Func(uid, f) => GlobalV::Func(uid.0, f@),
            GlobalKind::Class(uid, c) => GlobalV::Class(uid.0, c@),
        }
    }
}

/// The globals as a map from names to declarations: a later declaration of a name replaces an earlier one.
pub open spec fn globals_map(s: Seq<(String, GlobalKind)>) -> Map<Seq<char>, GlobalV>
    decreases s.len(),
{
    if s.len() == 0 {
        Map::empty()
    } else {
        globals_map(s.drop_last()).insert(s.last().0@, s.last().1@)
    }
}

/// The globals, each by its view, in the order they were declared.
pub open spec fn globals_view(s: Seq<(String, GlobalKind)>) -> Seq<(Seq<char>, GlobalV)> {
    s.map_values(|p: (String, GlobalKind)| (p.0@, p.1@))
}

/// Declarations read as a map: a later declaration of a name replaces an earlier one.
pub open spec fn decls_map(g: Seq<(Seq<char>, GlobalV)>) -> Map<Seq<char>, GlobalV>
    decreases g.len(),
{
    if g.len() == 0 {
        Map::empty()
    } else {
        decls_map(g.drop_last()).insert(g.last().0, g.last().1)
    }
}

/// The class declared last, among the declarations `g`, with name `name` and module `module`.
pub open spec fn class_lookup_v(g: Seq<(Seq<char>, GlobalV)>, name: Seq<char>, module: u64) -> Option<ClassTypeV>
    decreases g.len(),
{
    if g.len() == 0 {
        None
    } else {
        match g.last().1 {
            GlobalV::Class(_, c) => if c.name == name && c.module == module {
                Some(c)
            } else {
                class_lookup_v(g.drop_last(), name, module)
            },
            _ => class_lookup_v(g.drop_last(), name, module),
        }
    }
}

/// The map of the globals is that of their views.
pub proof fn lemma_globals_view(s: Seq<(String, GlobalKind)>)
    ensures
        globals_map(s) == decls_map(globals_view(s)),
    decreases s.len(),
{
    if s.len() > 0 {
        lemma_globals_view(s.drop_last());
        assert(globals_view(s.drop_last()) == globals_view(s).drop_last());
    }
}

/// Looking a class up among the globals finds what the lookup among their views finds.
pub proof fn lemma_class_lookup_view(s: Seq<(String, GlobalKind)>, name: Seq<char>, module: u64)
    ensures
        class_lookup(s, name, module) == class_lookup_v(globals_view(s), name, module),
    decreases s.len(),
{
    if s.len() > 0 {
        lemma_class_lookup_view(s.drop_last(), name, module);
        assert(globals_view(s.drop_last()) == globals_view(s).drop_last());
        assert(globals_view(s).last() == (s.last().0@, s.last().1@));
    }
}

/// What a name gives in a map of globals.
pub open spec fn global_get(m: Map<Seq<char>, GlobalV>, name: Seq<char>) -> ScopeGetV {
    if m.contains_key(name) {
        match m[name] {
            GlobalV::Var(uid, t) => ScopeGetV::Ref(uid, t),
            GlobalV::Func(uid, f) => ScopeGetV::Ref(uid, TypeV::Function(f.params, Box::new(f.ret))),
            GlobalV::Class(uid, c) => ScopeGetV::Class(uid, c),
        }
    } else {
        ScopeGetV::NotFound
    }
}

/// The scope of the global declarations of one module.
pub struct ParserModuleScope {
    pub uid: ModuleUID,
    pub globals: Vec<(String, GlobalKind)>,
}

impl ParserModuleScope {
    pub open spec fn map(&self) -> Map<Seq<char>, GlobalV> {
        globals_map(self.globals@)
    }

    /// The declarations, each by its view, in the order they were made.
    pub open spec fn globals_v(&self) -> Seq<(Seq<char>, GlobalV)> {
        globals_view(self.globals@)
    }

    pub fn new(module_uid: ModuleUID) -> (r: ParserModuleScope)
        ensures
            r.uid == module_uid,
            r.map() == Map::<Seq<char>, GlobalV>::empty(),
            r.globals_v() == Seq::<(Seq<char>, GlobalV)>::empty(),
    {
        let r = ParserModuleScope { uid: module_uid, globals: Vec::new() };
        proof {
            assert(r.globals_v() =~= Seq::<(Seq<char>, GlobalV)>::empty());
        }
        r
    }

    /// Looks a name up among the globals.
    pub fn get(&self, name: &String) -> (r: ScopeGetResult)
        ensures
            r@ == global_get(self.map(), name@),
    {
        let mut i = self.globals.len();
        proof {
            lemma_globals_split(self.globals@, self.globals@.len() as int);
            assert(self.globals@.skip(i as int) =~= Seq::<(String, GlobalKind)>::empty());
        }
        while i > 0
            invariant
                i <= self.globals@.len(),
                forall|j: int| i <= j < self.globals@.len() ==> #[trigger] self.globals@[j].0@ != name@,
                globals_map(self.globals@) == globals_map(self.globals@.take(i as int)).union_prefer_right(
                    globals_map(self.globals@.skip(i as int))),
                globals_map(self.globals@.skip(i as int)).dom().contains(name@) == false,
            decreases i,
        {
            let k = i - 1;
            if self.globals[k].0 == *name {
                proof { lemma_globals_take_last(self.globals@, k as int, name@); }
                return match &self.globals[k].1 {
                    GlobalKind::Var(uid, t) => ScopeGetResult::Ref(*uid, t.clone_type()),
                    GlobalKind::Func(uid, f) => ScopeGetResult::Ref(*uid, TypeKind::Function(f.clone_fn_type())),
                    GlobalKind::Class(uid, c) => ScopeGetResult::Class(*uid, c.clone_class()),
                };
            }
            proof { lemma_globals_step(self.globals@, k as int, name@); }
            i = k;
        }
        proof {
            assert(self.globals@.take(0) =~= Seq::<(String, GlobalKind)>::empty());
        }
        ScopeGetResult::NotFound
    }

    /// Declares a variable of this module.
    pub fn declare_var(&mut self, name: String, type_kind: TypeKind)
        ensures
            final(self).uid == old(self).uid,
            final(self).map() == old(self).map().insert(name@, GlobalV::Var(old(self).uid.0, type_kind@)),
            final(self).globals_v() == old(self).globals_v().push((name@, GlobalV::Var(old(self).uid.0, type_kind@))),
    {
        let g = GlobalKind::Var(self.uid, type_kind);
        self.push_global(name, g);
    }

    /// Declares a function of this module.
    pub fn declare_func(&mut self, name: String, func_type: FunctionType)
        ensures
            final(self).uid == old(self).uid,
            final(self).map() == old(self).map().insert(name@, GlobalV::Func(old(self).uid.0, func_type@)),
            final(self).globals_v() == old(self).globals_v().push((name@, GlobalV::Func(old(self).uid.0, func_type@))),
    {
        let g = GlobalKind::Func(self.uid, func_type);
        self.push_global(name, g);
    }

    /// Declares a class of this module.
    pub fn declare_class(&mut self, name: String, class_type: ClassType)
        ensures
            final(self).uid == old(self).uid,
            final(self).map() == old(self).map().insert(name@, GlobalV::Class(old(self).uid.0, class_type@)),
            final(self).globals_v() == old(self).globals_v().push((name@, GlobalV::Class(old(self).uid.0, class_type@))),
    {
        let g = GlobalKind::Class(self.uid, class_type);
        self.push_global(name, g);
    }

    /// Declares a function of another module.
    pub fn declare_external_func(&mut self, name: String, module: ModuleUID, func_type: FunctionType)
        ensures
            final(self).uid == old(self).uid,
            final(self).map() == old(self).map().insert(name@, GlobalV::Func(module.0, func_type@)),
            final(self).globals_v() == old(self).globals_v().push((name@, GlobalV::Func(module.0, func_type@))),
    {
        self.push_global(name, GlobalKind::Func(module, func_type));
    }

    /// Declares a variable of another module.
    pub fn declare_external_var(&mut self, name: String, module: ModuleUID, type_: TypeKind)
        ensures
            final(self).uid == old(self).uid,
            final(self).map() == old(self).map().insert(name@, GlobalV::Var(module.0, type_@)),
            final(self).globals_v() == old(self).globals_v().push((name@, GlobalV::Var(module.0, type_@))),
    {
        self.push_global(name, GlobalKind::Var(module, type_));
    }

    /// Declares a class of another module.
    pub fn declare_external_class(&mut self, name: String, module: ModuleUID, class_type: ClassType)
        ensures
            final(self).uid == old(self).uid,
            final(self).map() == old(self).map().insert(name@, GlobalV::Class(module.0, class_type@)),
            final(self).globals_v() == old(self).globals_v().push((name@, GlobalV::Class(module.0, class_type@))),
    {
        self.push_global(name, GlobalKind::Class(module, class_type));
    }

    fn push_global(&mut self, name: String, g: GlobalKind)
        ensures
            final(self).uid == old(self).uid,
            final(self).map() == old(self).map().insert(name@, g@),
            final(self).globals_v() == old(self).globals_v().push((name@, g@)),
    {
        let ghost old_globals = self.globals@;
        let ghost entry = (name@, g@);
        self.globals.push((name, g));
        proof {
            assert(self.globals@.drop_last() == old_globals);
            assert(globals_view(self.globals@) =~= globals_view(old_globals).push(entry));
        }
    }
}

proof fn lemma_globals_take_last(s: Seq<(String, GlobalKind)>, k: int, name: Seq<char>)
    requires
        0 <= k < s.len(),
        s[k].0@ == name,
        globals_map(s) == globals_map(s.take(k + 1)).union_prefer_right(globals_map(s.skip(k + 1))),
        !globals_map(s.skip(k + 1)).dom().contains(name),
    ensures
        globals_map(s).contains_key(name),
        globals_map(s)[name] == s[k].1@,
{
    assert(s.take(k + 1).drop_last() == s.take(k));
    assert(s.take(k + 1).last() == s[k]);
}

proof fn lemma_globals_step(s: Seq<(String, GlobalKind)>, k: int, name: Seq<char>)
    requires
        0 <= k < s.len(),
        s[k].0@ != name,
        globals_map(s) == globals_map(s.take(k + 1)).union_prefer_right(globals_map(s.skip(k + 1))),
        !globals_map(s.skip(k + 1)).dom().contains(name),
    ensures
        globals_map(s) == globals_map(s.take(k)).union_prefer_right(globals_map(s.skip(k))),
        !globals_map(s.skip(k)).dom().contains(name),
{
    lemma_globals_split(s, k);
    lemma_globals_split(s.skip(k), 1);
    assert(s.skip(k).take(1) == seq![s[k]]);
    assert(s.skip(k).skip(1) == s.skip(k + 1));
    let one = seq![s[k]];
    assert(one.drop_last() =~= Seq::<(String, GlobalKind)>::empty());
    assert(one.last() == s[k]);
    assert(globals_map(one.drop_last()) == Map::<Seq<char>, GlobalV>::empty());
    assert(globals_map(one) == Map::<Seq<char>, GlobalV>::empty().insert(s[k].0@, s[k].1@));
    assert(!globals_map(one).dom().contains(name));
}

/// Splitting the declarations at any point: the later part overrides the earlier part.
proof fn lemma_globals_split(s: Seq<(String, GlobalKind)>, k: int)
    requires
        0 <= k <= s.len(),
    ensures
        globals_map(s) == globals_map(s.take(k)).union_prefer_right(globals_map(s.skip(k))),
    decreases s.len(),
{
    if k == s.len() {
        assert(s.take(k) == s);
        assert(s.skip(k) =~= Seq::<(String, GlobalKind)>::empty());
        assert(globals_map(s) =~= globals_map(s.take(k)).union_prefer_right(Map::empty()));
    } else {
        lemma_globals_split(s.drop_last(), k);
        assert(s.drop_last().take(k) == s.take(k));
        assert(s.skip(k).drop_last() == s.drop_last().skip(k));
        assert(s.skip(k).last() == s.last());
        assert(globals_map(s) =~= globals_map(s.take(k)).union_prefer_right(globals_map(s.skip(k))));
    }
}

/// The class with the name and module of `c` among declarations, the latest first.
pub open spec fn class_lookup(s: Seq<(String, GlobalKind)>, name: Seq<char>, module: u64) -> Option<ClassTypeV>
    decreases s.len(),
{
    if s.len() == 0 {
        None
    } else {
        match s.last().1 {
            GlobalKind::Class(_, c) => if c.name@ == name && c.module.0 == module {
                Some(c@)
            } else {
                class_lookup(s.drop_last(), name, module)
            },
            _ => class_lookup(s.drop_last(), name, module),
        }
    }
}

impl ParserModuleScope {
    /// The description of the class that `c` refers to, if the scope declares it.
    pub fn find_class(&self, c: &ClassRef) -> (r: Option<ClassType>)
        ensures
            r matches Some(ct) ==> class_lookup(self.globals@, c.name@, c.module.0) == Some(ct@),
            r is None ==> class_lookup(self.globals@, c.name@, c.module.0) is None,
    {
        let mut i = self.globals.len();
        proof {
            assert(self.globals@.take(i as int) =~= self.globals@);
        }
        while i > 0
            invariant
                i <= self.globals@.len(),
                class_lookup(self.globals@, c.name@, c.module.0) == class_lookup(self.globals@.take(i as int), c.name@, c.module.0),
            decreases i,
        {
            let k = i - 1;
            proof {
                let s = self.globals@.take(i as int);
                assert(s.last() == self.globals@[k as int]);
                assert(s.drop_last() == self.globals@.take(k as int));
            }
            match &self.globals[k].1 {
                GlobalKind::Class(_, ct) => {
                    if ct.name == c.name && ct.module.0 == c.module.0 {
                        return Some(ct.clone_class());
                    }
                },
                _ => {},
            }
            i = k;
        }
        proof {
            assert(self.globals@.take(0) =~= Seq::<(String, GlobalKind)>::empty());
        }
        None
    }
}

/// The type that a declared type stands for in a scope: each class name is resolved to the
/// class that the name gives; `None` where a name gives no class.
pub open spec fn convert_spec(m: Map<Seq<char>, GlobalV>, t: ParsableTypeV) -> Option<TypeV>
    decreases t,
{
    match t {
        ParsableTypeV::Unknown => Some(TypeV::Unknown),
        ParsableTypeV::Int => Some(TypeV::Int),
        ParsableTypeV::Float => Some(TypeV::Float),
        ParsableTypeV::Str => Some(TypeV::Str),
        ParsableTypeV::Bool => Some(TypeV::Bool),
        ParsableTypeV::Nothing => Some(TypeV::Nothing),
        ParsableTypeV::Vector(inner) => match convert_spec(m, *inner) {
            Some(i) => Some(TypeV::Vector(Box::new(i))),
            None => None,
        },
        ParsableTypeV::Function(ps, ret) => match (converts_spec(m, ps), convert_spec(m, *ret)) {
            (Some(a), Some(b)) => Some(TypeV::Function(a, Box::new(b))),
            _ => None,
        },
        ParsableTypeV::Custom(name) => match global_get(m, name) {
            ScopeGetV::Class(_, c) => Some(TypeV::Class(c.name, c.module)),
            _ => None,
        },
    }
}

/// The types that a list of declared types stands for, if each stands for one.
pub open spec fn converts_spec(m: Map<Seq<char>, GlobalV>, s: Seq<ParsableTypeV>) -> Option<Seq<TypeV>>
    decreases s,
{
    if s.len() == 0 {
        Some(Seq::empty())
    } else {
        match (convert_spec(m, s[0]), converts_spec(m, s.drop_first())) {
            (Some(a), Some(rest)) => Some(seq![a] + rest),
            _ => None,
        }
    }
}

/// The function type that a declared function type stands for.
pub open spec fn convert_fn_spec(m: Map<Seq<char>, GlobalV>, params: Seq<ParsableTypeV>, ret: ParsableTypeV) -> Option<FunctionTypeV> {
    match (converts_spec(m, params), convert_spec(m, ret)) {
        (Some(a), Some(b)) => Some(FunctionTypeV { params: a, ret: b }),
        _ => None,
    }
}

/// The error for a declared type that names no class.
pub open spec fn unknown_type_error() -> LangError {
    LangError::Build { kind: BuildErrorKind::UnexpectedError }
}

/// A list of declared types converts exactly when each of them does, element by element.
proof fn lemma_converts_all(m: Map<Seq<char>, GlobalV>, s: Seq<ParsableTypeV>)
    ensures
        (forall|j: int| 0 <= j < s.len() ==> (#[trigger] convert_spec(m, s[j])) is Some) ==> {
            &&& converts_spec(m, s) is Some
            &&& converts_spec(m, s).unwrap().len() == s.len()
            &&& forall|j: int| 0 <= j < s.len() ==>
                    Some(#[trigger] converts_spec(m, s).unwrap()[j]) == convert_spec(m, s[j])
        },
        (exists|j: int| 0 <= j < s.len() && (#[trigger] convert_spec(m, s[j])) is None) ==> converts_spec(m, s) is None,
    decreases s.len(),
{
    if s.len() > 0 {
        lemma_converts_all(m, s.drop_first());
        assert forall|j: int| 0 <= j < s.len() - 1 implies #[trigger] s.drop_first()[j] == s[j + 1] by {}
        if forall|j: int| 0 <= j < s.len() ==> (#[trigger] convert_spec(m, s[j])) is Some {
            assert forall|j: int| 0 <= j < s.drop_first().len() implies (#[trigger] convert_spec(m, s.drop_first()[j])) is Some by {
                assert(convert_spec(m, s[j + 1]) is Some);
            }
            let rest = converts_spec(m, s.drop_first()).unwrap();
            assert(convert_spec(m, s[0]) is Some);
            let a = convert_spec(m, s[0]).unwrap();
            let all = seq![a] + rest;
            assert(converts_spec(m, s) == Some(all));
            assert forall|j: int| 0 <= j < s.len() implies
                Some(#[trigger] converts_spec(m, s).unwrap()[j]) == convert_spec(m, s[j]) by {
                if j > 0 {
                    assert(all[j] == rest[j - 1]);
                    assert(convert_spec(m, s.drop_first()[j - 1]) == Some(rest[j - 1]));
                } else {
                    assert(all[0] == a);
                }
            }
        }
        if exists|j: int| 0 <= j < s.len() && (#[trigger] convert_spec(m, s[j])) is None {
            let j = choose|j: int| 0 <= j < s.len() && (#[trigger] convert_spec(m, s[j])) is None;
            if j > 0 {
                assert(convert_spec(m, s.drop_first()[j - 1]) is None);
            }
        }
    }
}

impl ParserModuleScope {
    /// The class that `name` gives.
    pub fn get_class(&self, name: &String) -> (r: Result<ClassType, LangError>)
        ensures
            match r {
                Ok(c) => global_get(self.map(), name@) matches ScopeGetV::Class(_, cv) && cv == c@,
                Err(e) => !(global_get(self.map(), name@) is Class) && e == unknown_type_error(),
            },
    {
        match self.get(name) {
            ScopeGetResult::Class(_, c) => Ok(c),
            _ => Err(LangError::build(BuildErrorKind::UnexpectedError)),
        }
    }

    /// The type that a declared type stands for in this scope.
    pub fn convert_parsable_type(&self, t: &ParsableType) -> (r: Result<TypeKind, LangError>)
        ensures
            match r {
                Ok(k) => convert_spec(self.map(), t@) == Some(k@),
                Err(e) => convert_spec(self.map(), t@) is None && e == unknown_type_error(),
            },
        decreases *t,
    {
        match t {
            ParsableType::Unknown => Ok(TypeKind::Unknown),
            ParsableType::Int => Ok(TypeKind::Int),
            ParsableType::Float => Ok(TypeKind::Float),
            ParsableType::String => Ok(TypeKind::String),
            ParsableType::Bool => Ok(TypeKind::Bool),
            ParsableType::Nothing => Ok(TypeKind::Nothing),
            ParsableType::Vector(inner) => {
                let i = self.convert_parsable_type(&**inner)?;
                Ok(TypeKind::Vector(Box::new(i)))
            },
            ParsableType::Function(ft) => {
                let f = self.convert_parsable_func_type(ft)?;
                Ok(TypeKind::Function(f))
            },
            ParsableType::Custom(name) => match self.get(name) {
                ScopeGetResult::Class(_, c) => Ok(TypeKind::Class(ClassRef { name: c.name, module: c.module })),
                _ => Err(LangError::build(BuildErrorKind::UnexpectedError)),
            },
        }
    }

    /// The function type that a declared function type stands for in this scope.
    pub fn convert_parsable_func_type(&self, ft: &ParsableFunctionType) -> (r: Result<FunctionType, LangError>)
        ensures
            match r {
                Ok(f) => convert_fn_spec(self.map(), ptypes_view(ft.0@), (*ft.1)@) == Some(f@),
                Err(e) => convert_fn_spec(self.map(), ptypes_view(ft.0@), (*ft.1)@) is None && e == unknown_type_error(),
            },
        decreases *ft,
    {
        let ghost m = self.map();
        let ghost ps = ptypes_view(ft.0@);
        proof {
            lemma_ptypes_view_len(ft.0@);
        }
        let mut params: Vec<TypeKind> = Vec::new();
        let mut i: usize = 0;
        while i < ft.0.len()
            invariant
                i <= ft.0@.len(),
                ps.len() == ft.0@.len(),
                params@.len() == i,
                forall|j: int| 0 <= j < i ==> #[trigger] convert_spec(m, ps[j]) == Some(params@[j]@),
                m == self.map(),
                ps == ptypes_view(ft.0@),
                forall|j: int| 0 <= j < ft.0@.len() ==> #[trigger] ps[j] == ft.0@[j]@,
            decreases ft.0@.len() - i,
        {
            proof {
                assert(decreases_to!(ft.0@ => ft.0@[i as int]));
            }
            let t = match self.convert_parsable_type(&ft.0[i]) {
                Ok(t) => t,
                Err(e) => {
                    proof {
                        assert(convert_spec(m, ps[i as int]) is None);
                        lemma_converts_all(m, ps);
                    }
                    return Err(e);
                },
            };
            params.push(t);
            i = i + 1;
        }
        proof {
            lemma_converts_all(m, ps);
            lemma_types_view_len(params@);
            assert(converts_spec(m, ps).unwrap() =~= types_view(params@));
        }
        let ret = self.convert_parsable_type(&*ft.1)?;
        Ok(FunctionType(params, Box::new(ret)))
    }
}

/// What a declaration makes a name give.
pub open spec fn declared_get(g: GlobalV) -> ScopeGetV {
    match g {
        GlobalV::Var(uid, t) => ScopeGetV::Ref(uid, t),
        GlobalV::Func(uid, f) => ScopeGetV::Ref(uid, TypeV::Function(f.params, Box::new(f.ret))),
        GlobalV::Class(uid, c) => ScopeGetV::Class(uid, c),
    }
}

/// After a declaration, the declared name gives what it was declared with, and every other
/// name gives what it gave before.
pub proof fn law_module_get_after_declare(m: Map<Seq<char>, GlobalV>, name: Seq<char>, g: GlobalV, other: Seq<char>)
    ensures
        global_get(m.insert(name, g), name) == declared_get(g),
        other != name ==> global_get(m.insert(name, g), other) == global_get(m, other),
{
}

/// Every class of the globals is declared under its own name.
pub open spec fn classes_under_own_names(m: Map<Seq<char>, GlobalV>) -> bool {
    forall|k: Seq<char>| #[trigger] m.contains_key(k) ==> (m[k] matches GlobalV::Class(_, c) ==> c.name == k)
}

/// Where each class is declared under its own name, a declared type that resolves gives itself
/// back as the declared form of its resolution: resolving only binds class names to classes.
pub proof fn law_convert_declared_form(m: Map<Seq<char>, GlobalV>, t: ParsableTypeV)
    requires
        classes_under_own_names(m),
    ensures
        convert_spec(m, t) matches Some(v) ==> crate::parsing_types::declared_form(v) == t,
    decreases t,
{
    match t {
        ParsableTypeV::Vector(inner) => {
            law_convert_declared_form(m, *inner);
        },
        ParsableTypeV::Function(ps, ret) => {
            law_convert_declared_form(m, *ret);
            lemma_converts_declared_forms(m, ps);
        },
        ParsableTypeV::Custom(name) => {
            if m.contains_key(name) {
                if let GlobalV::Class(_, c) = m[name] {
                    assert(c.name == name);
                }
            }
        },
        _ => {},
    }
}

proof fn lemma_converts_declared_forms(m: Map<Seq<char>, GlobalV>, ps: Seq<ParsableTypeV>)
    requires
        classes_under_own_names(m),
    ensures
        converts_spec(m, ps) matches Some(vs) ==> crate::parsing_types::declared_forms(vs) == ps,
    decreases ps,
{
    if ps.len() > 0 {
        law_convert_declared_form(m, ps[0]);
        lemma_converts_declared_forms(m, ps.drop_first());
        if let Some(vs) = converts_spec(m, ps) {
            let a = convert_spec(m, ps[0]).unwrap();
            let rest = converts_spec(m, ps.drop_first()).unwrap();
            assert(vs == seq![a] + rest);
            assert(vs[0] == a);
            assert(vs.drop_first() =~= rest);
            assert(crate::parsing_types::declared_forms(vs) =~= ps);
        }
    }
}

/// A primitive type name written in a declaration resolves, in any scope, to the type that the
/// name stands for in code; and different names stand for different types.
pub proof fn law_primitive_declared_form(m: Map<Seq<char>, GlobalV>, p: PrimitiveType, q: PrimitiveType)
    ensures
        convert_spec(m, primitive_ptype(p)) == Some(primitive_type(p)),
        p != q ==> primitive_ptype(p) != primitive_ptype(q),
        p != q ==> primitive_type(p) != primitive_type(q),
{
}

} // verus!
