use vstd::prelude::*;
use crate::tokens::LiteralKind;
use crate::types::{FunctionType, PrimitiveType, TypeKind, TypeV, types_view, lemma_types_view_len};

verus! {

/// A type as written in a declaration, before the names of classes are resolved.
#[derive(Debug, PartialEq, Eq)]
pub enum ParsableType {
    Unknown,
    Int,
    Float,
    String,
    Bool,
    Nothing,
    Vector(Box<ParsableType>),
    Function(ParsableFunctionType),
    Custom(String),
}

/// A function type as written in a declaration.
#[derive(Debug, PartialEq, Eq)]
pub struct ParsableFunctionType(pub Vec<ParsableType>, pub Box<ParsableType>);

pub enum ParsableTypeV {
    Unknown,
    Int,
    Float,
    Str,
    Bool,
    Nothing,
    Vector(Box<ParsableTypeV>),
    Function(Seq<ParsableTypeV>, Box<ParsableTypeV>),
    Custom(Seq<char>),
}

pub open spec fn ptypes_view(s: Seq<ParsableType>) -> Seq<ParsableTypeV>
    decreases s,
{
    if s.len() == 0 {
        Seq::empty()
    } else {
        seq![s[0].view_ptype()] + ptypes_view(s.drop_first())
    }
}

impl ParsableType {
    pub open spec fn view_ptype(&self) -> ParsableTypeV
        decreases *self,
    {
        match self {
            ParsableType::Unknown => ParsableTypeV::Unknown,
            ParsableType::Int => ParsableTypeV::Int,
            ParsableType::Float => ParsableTypeV::Float,
            ParsableType::String => ParsableTypeV::Str,
            ParsableType::Bool => ParsableTypeV::Bool,
            ParsableType::Nothing => ParsableTypeV::Nothing,
            ParsableType::Vector(inner) => ParsableTypeV::Vector(Box::new((**inner).view_ptype())),
            ParsableType::Function(ft) => ParsableTypeV::Function(ptypes_view(ft.0@), Box::new((*ft.1).view_ptype())),
            ParsableType::Custom(name) => ParsableTypeV::Custom(name@),
        }
    }
}

impl View for ParsableType {
    type V = ParsableTypeV;

    open spec fn view(&self) -> ParsableTypeV {
        self.view_ptype()
    }
}

pub proof fn lemma_ptypes_view_len(s: Seq<ParsableType>)
    ensures
        ptypes_view(s).len() == s.len(),
        forall|i: int| 0 <= i < s.len() ==> #[trigger] ptypes_view(s)[i] == s[i]@,
    decreases s.len(),
{
    if s.len() > 0 {
        lemma_ptypes_view_len(s.drop_first());
        assert forall|i: int| 0 <= i < s.len() implies #[trigger] ptypes_view(s)[i] == s[i]@ by {
            if i > 0 {
                assert(s.drop_first()[i - 1] == s[i]);
            }
        }
    }
}

pub proof fn lemma_ptypes_view_ext(a: Seq<ParsableType>, b: Seq<ParsableType>)
    requires
        a.len() == b.len(),
        forall|i: int| 0 <= i < a.len() ==> #[trigger] a[i]@ == b[i]@,
    ensures
        ptypes_view(a) == ptypes_view(b),
{
    lemma_ptypes_view_len(a);
    lemma_ptypes_view_len(b);
    assert(ptypes_view(a) =~= ptypes_view(b));
}


/// The declared form of a type: the same shape, with each class written as its name.
pub open spec fn declared_form(t: TypeV) -> ParsableTypeV
    decreases t,
{
    match t {
        TypeV::Unknown => ParsableTypeV::Unknown,
        TypeV::Int => ParsableTypeV::Int,
        TypeV::Float => ParsableTypeV::Float,
        TypeV::Str => ParsableTypeV::Str,
        TypeV::Bool => ParsableTypeV::Bool,
        TypeV::Nothing => ParsableTypeV::Nothing,
        TypeV::Vector(inner) => ParsableTypeV::Vector(Box::new(declared_form(*inner))),
        TypeV::Function(ps, ret) => ParsableTypeV::Function(declared_forms(ps), Box::new(declared_form(*ret))),
        TypeV::Class(name, _) => ParsableTypeV::Custom(name),
    }
}

pub open spec fn declared_forms(s: Seq<TypeV>) -> Seq<ParsableTypeV>
    decreases s,
{
    if s.len() == 0 {
        Seq::empty()
    } else {
        seq![declared_form(s[0])] + declared_forms(s.drop_first())
    }
}

pub proof fn lemma_declared_forms(s: Seq<TypeV>)
    ensures
        declared_forms(s).len() == s.len(),
        forall|i: int| 0 <= i < s.len() ==> #[trigger] declared_forms(s)[i] == declared_form(s[i]),
    decreases s.len(),
{
    if s.len() > 0 {
        lemma_declared_forms(s.drop_first());
        assert forall|i: int| 0 <= i < s.len() implies #[trigger] declared_forms(s)[i] == declared_form(s[i]) by {
            if i > 0 {
                assert(s.drop_first()[i - 1] == s[i]);
            }
        }
    }
}

pub open spec fn primitive_ptype(p: PrimitiveType) -> ParsableTypeV {
    match p {
        PrimitiveType::Nothing => ParsableTypeV::Nothing,
        PrimitiveType::Int => ParsableTypeV::Int,
        PrimitiveType::Float => ParsableTypeV::Float,
        PrimitiveType::Bool => ParsableTypeV::Bool,
        PrimitiveType::String => ParsableTypeV::Str,
    }
}

pub fn clone_ptypes(v: &Vec<ParsableType>) -> (r: Vec<ParsableType>)
    ensures
        r@.len() == v@.len(),
        forall|i: int| 0 <= i < v@.len() ==> #[trigger] r@[i]@ == v@[i]@,
        ptypes_view(r@) == ptypes_view(v@),
    decreases v@,
{
    let mut r: Vec<ParsableType> = Vec::new();
    let mut i: usize = 0;
    while i < v.len()
        invariant
            i <= v@.len(),
            r@.len() == i,
            forall|j: int| 0 <= j < i ==> #[trigger] r@[j]@ == v@[j]@,
        decreases v@.len() - i,
    {
        proof {
            assert(decreases_to!(v@ => v@[i as int]));
        }
        let t = v[i].clone_ptype();
        r.push(t);
        i = i + 1;
    }
    proof {
        lemma_ptypes_view_ext(r@, v@);
    }
    r
}

impl ParsableFunctionType {
    pub fn clone_pfn_type(&self) -> (r: ParsableFunctionType)
        ensures
            ptypes_view(r.0@) == ptypes_view(self.0@),
            (*r.1)@ == (*self.1)@,
        decreases *self,
    {
        ParsableFunctionType(clone_ptypes(&self.0), Box::new((*self.1).clone_ptype()))
    }

    /// The declared form of a function type.
    pub fn from_function_type(function_type: &FunctionType) -> (r: ParsableFunctionType)
        ensures
            ptypes_view(r.0@) == declared_forms(types_view(function_type.0@)),
            (*r.1)@ == declared_form((*function_type.1)@),
        decreases *function_type,
    {
        let mut params: Vec<ParsableType> = Vec::new();
        let mut i: usize = 0;
        while i < function_type.0.len()
            invariant
                i <= function_type.0@.len(),
                params@.len() == i,
                forall|j: int| 0 <= j < i ==> #[trigger] params@[j]@ == declared_form(function_type.0@[j]@),
            decreases function_type.0@.len() - i,
        {
            proof {
                assert(decreases_to!(function_type.0@ => function_type.0@[i as int]));
            }
            params.push(ParsableType::from_type_kind(&function_type.0[i]));
            i = i + 1;
        }
        proof {
            let tv = types_view(function_type.0@);
            lemma_types_view_len(function_type.0@);
            lemma_declared_forms(tv);
            lemma_ptypes_view_len(params@);
            assert(ptypes_view(params@) =~= declared_forms(tv));
        }
        ParsableFunctionType(params, Box::new(ParsableType::from_type_kind(&function_type.1)))
    }
}

impl ParsableType {
    pub fn clone_ptype(&self) -> (r: ParsableType)
        ensures
            r@ == self@,
        decreases *self,
    {
        match self {
            ParsableType::Unknown => ParsableType::Unknown,
            ParsableType::Int => ParsableType::Int,
            ParsableType::Float => ParsableType::Float,
            ParsableType::String => ParsableType::String,
            ParsableType::Bool => ParsableType::Bool,
            ParsableType::Nothing => ParsableType::Nothing,
            ParsableType::Vector(inner) => ParsableType::Vector(Box::new((**inner).clone_ptype())),
            ParsableType::Function(ft) => ParsableType::Function(ft.clone_pfn_type()),
            ParsableType::Custom(name) => ParsableType::Custom(name.clone()),
        }
    }

    /// The declared form of a type: a class is written as its name.
    pub fn from_type_kind(kind: &TypeKind) -> (r: ParsableType)
        ensures
            r@ == declared_form(kind@),
        decreases *kind,
    {
        match kind {
            TypeKind::Unknown => ParsableType::Unknown,
            TypeKind::Nothing => ParsableType::Nothing,
            TypeKind::Int => ParsableType::Int,
            TypeKind::Float => ParsableType::Float,
            TypeKind::String => ParsableType::String,
            TypeKind::Bool => ParsableType::Bool,
            TypeKind::Vector(inner) => ParsableType::Vector(Box::new(ParsableType::from_type_kind(&**inner))),
            TypeKind::Function(func_type) => ParsableType::Function(ParsableFunctionType::from_function_type(func_type)),
            TypeKind::Class(class_type) => ParsableType::Custom(class_type.name.clone()),
        }
    }

    /// The declared form of a primitive type.
    pub fn from_primitive(tk: &PrimitiveType) -> (r: ParsableType)
        ensures
            r@ == primitive_ptype(*tk),
    {
        match tk {
            PrimitiveType::Nothing => ParsableType::Nothing,
            PrimitiveType::Int => ParsableType::Int,
            PrimitiveType::Float => ParsableType::Float,
            PrimitiveType::Bool => ParsableType::Bool,
            PrimitiveType::String => ParsableType::String,
        }
    }

    /// The declared form of the type of a literal.
    pub fn from_literal(literal_kind: &LiteralKind) -> (r: ParsableType)
        ensures
            r@ == match *literal_kind {
                LiteralKind::Int(_) => ParsableTypeV::Int,
                LiteralKind::Float(_) => ParsableTypeV::Float,
                LiteralKind::String(_) => ParsableTypeV::Str,
                LiteralKind::Bool(_) => ParsableTypeV::Bool,
                LiteralKind::Nothing => ParsableTypeV::Nothing,
            },
    {
        match literal_kind {
            LiteralKind::Int(_) => ParsableType::Int,
            LiteralKind::Float(_) => ParsableType::Float,
            LiteralKind::String(_) => ParsableType::String,
            LiteralKind::Bool(_) => ParsableType::Bool,
            LiteralKind::Nothing => ParsableType::Nothing,
        }
    }
}

} // verus!
