use vstd::prelude::*;
use crate::module::ModuleUID;

verus! {

/// Custom attributes that can be attached to declarations.
#[derive(Clone, Copy, Debug, PartialEq, Eq, Structural)]
pub enum Attribute {
    Data,
    Import,
}

/// Whether a class is an ordinary class or a data class (fields only).
#[derive(Clone, Copy, Debug, PartialEq, Eq, Structural)]
pub enum ClassKind {
    Normal,
    Data,
}

#[derive(Clone, Copy, Debug, PartialEq, Eq, Structural)]
pub enum ParenthesisKind {
    Round,
    Square,
    Curly,
}

#[derive(Clone, Copy, Debug, PartialEq, Eq, Structural)]
pub enum ParenthesisState {
    Open,
    Close,
}

#[derive(Clone, Copy, Debug, PartialEq, Eq, Structural)]
pub enum OperatorKind {
    Assign,
    In,
    Range,
    Comma,
    Dot,
    Colon,
}

#[derive(Clone, Copy, Debug, PartialEq, Eq, Structural)]
pub enum BoolOperatorKind {
    Equal,
    Different,
    Bigger,
    Smaller,
    BiggerEq,
    SmallerEq,
}

#[derive(Clone, Copy, Debug, PartialEq, Eq, Structural)]
pub enum MathOperatorKind {
    Plus,
    Minus,
    Multiply,
    Divide,
    Modulus,
    Power,
}

#[derive(Clone, Copy, Debug, PartialEq, Eq, Structural)]
pub enum ReturnKind {
    Return,
    Break,
    Panic,
}

/// The primitive types that can be written in source code.
#[derive(Clone, Copy, Debug, PartialEq, Eq, Structural)]
pub enum PrimitiveType {
    Nothing,
    Int,
    Float,
    Bool,
    String,
}

/// A reference to a class: classes are equal when their names and modules are.
#[derive(Debug, PartialEq, Eq)]
pub struct ClassRef {
    pub name: String,
    pub module: ModuleUID,
}

/// The type of a function: the parameter types and the return type.
#[derive(Debug, PartialEq, Eq)]
pub struct FunctionType(pub Vec<TypeKind>, pub Box<TypeKind>);

/// The type of a value, as the parser and the type checker see it.
#[derive(Debug, PartialEq, Eq)]
pub enum TypeKind {
    Unknown,
    Int,
    Float,
    String,
    Bool,
    Nothing,
    Vector(Box<TypeKind>),
    Function(FunctionType),
    Class(ClassRef),
}

/// The mathematical value of a `TypeKind`: names become character sequences.
pub enum TypeV {
    Unknown,
    Int,
    Float,
    Str,
    Bool,
    Nothing,
    Vector(Box<TypeV>),
    Function(Seq<TypeV>, Box<TypeV>),
    Class(Seq<char>, u64),
}

/// The mathematical value of a function type.
pub struct FunctionTypeV {
    pub params: Seq<TypeV>,
    pub ret: TypeV,
}

pub open spec fn types_view(s: Seq<TypeKind>) -> Seq<TypeV>
    decreases s,
{
    if s.len() == 0 {
        Seq::empty()
    } else {
        seq![s[0].view_type()] + types_view(s.drop_first())
    }
}

impl TypeKind {
    pub open spec fn view_type(&self) -> TypeV
        decreases *self,
    {
        match self {
            TypeKind::Unknown => TypeV::Unknown,
            TypeKind::Int => TypeV::Int,
            TypeKind::Float => TypeV::Float,
            TypeKind::String => TypeV::Str,
            TypeKind::Bool => TypeV::Bool,
            TypeKind::Nothing => TypeV::Nothing,
            TypeKind::Vector(inner) => TypeV::Vector(Box::new((**inner).view_type())),
            TypeKind::Function(ft) => TypeV::Function(types_view(ft.0@), Box::new((*ft.1).view_type())),
            TypeKind::Class(c) => TypeV::Class(c.name@, c.module.0),
        }
    }
}

impl View for TypeKind {
    type V = TypeV;

    open spec fn view(&self) -> TypeV {
        self.view_type()
    }
}

impl View for FunctionType {
    type V = FunctionTypeV;

    open spec fn view(&self) -> FunctionTypeV {
        FunctionTypeV { params: types_view(self.0@), ret: (*self.1).view_type() }
    }
}

pub proof fn lemma_types_view_len(s: Seq<TypeKind>)
    ensures
        types_view(s).len() == s.len(),
        forall|i: int| 0 <= i < s.len() ==> #[trigger] types_view(s)[i] == s[i]@,
    decreases s.len(),
{
    if s.len() > 0 {
        lemma_types_view_len(s.drop_first());
        assert forall|i: int| 0 <= i < s.len() implies #[trigger] types_view(s)[i] == s[i]@ by {
            if i > 0 {
                assert(s.drop_first()[i - 1] == s[i]);
            }
        }
    }
}

pub proof fn lemma_types_view_push(s: Seq<TypeKind>, t: TypeKind)
    ensures
        types_view(s.push(t)) == types_view(s).push(t@),
{
    lemma_types_view_len(s);
    lemma_types_view_len(s.push(t));
    assert(types_view(s.push(t)) =~= types_view(s).push(t@));
}

/// Two type lists have equal views when they have equal lengths and equal views elementwise.
pub proof fn lemma_types_view_ext(a: Seq<TypeKind>, b: Seq<TypeKind>)
    requires
        a.len() == b.len(),
        forall|i: int| 0 <= i < a.len() ==> #[trigger] a[i]@ == b[i]@,
    ensures
        types_view(a) == types_view(b),
{
    lemma_types_view_len(a);
    lemma_types_view_len(b);
    assert(types_view(a) =~= types_view(b));
}

impl ClassRef {
    pub fn clone_ref(&self) -> (r: ClassRef)
        ensures
            r.name@ == self.name@,
            r.module == self.module,
    {
        ClassRef { name: self.name.clone(), module: self.module }
    }
}

/// Clones a list of types, keeping every view.
pub fn clone_types(v: &Vec<TypeKind>) -> (r: Vec<TypeKind>)
    ensures
        r@.len() == v@.len(),
        forall|i: int| 0 <= i < v@.len() ==> #[trigger] r@[i]@ == v@[i]@,
        types_view(r@) == types_view(v@),
    decreases v@,
{
    let mut r: Vec<TypeKind> = Vec::new();
    let mut i: usize = 0;
    while i < v.len()
        invariant
            i <= v@.len(),
            r@.len() == i,
            forall|j: int| 0 <= j < i ==> #[trigger] r@[j]@ == v@[j]@,
        decreases v@.len() - i,
    {
        proof {
            assert(decreases_to!(v@ => v@[i as int]));
        }
        let t = v[i].clone_type();
        r.push(t);
        i = i + 1;
    }
    proof {
        lemma_types_view_ext(r@, v@);
    }
    r
}

impl FunctionType {
    pub fn clone_fn_type(&self) -> (r: FunctionType)
        ensures
            r@ == self@,
            r.0@.len() == self.0@.len(),
            forall|i: int| 0 <= i < self.0@.len() ==> #[trigger] r.0@[i]@ == self.0@[i]@,
            (*r.1)@ == (*self.1)@,
        decreases *self,
    {
        let params = clone_types(&self.0);
        let ret = (*self.1).clone_type();
        FunctionType(params, Box::new(ret))
    }
}

impl TypeKind {
    /// A copy of the type with the same view.
    pub fn clone_type(&self) -> (r: TypeKind)
        ensures
            r@ == self@,
        decreases *self,
    {
        match self {
            TypeKind::Unknown => TypeKind::Unknown,
            TypeKind::Int => TypeKind::Int,
            TypeKind::Float => TypeKind::Float,
            TypeKind::String => TypeKind::String,
            TypeKind::Bool => TypeKind::Bool,
            TypeKind::Nothing => TypeKind::Nothing,
            TypeKind::Vector(inner) => TypeKind::Vector(Box::new((**inner).clone_type())),
            TypeKind::Function(ft) => TypeKind::Function(ft.clone_fn_type()),
            TypeKind::Class(c) => TypeKind::Class(c.clone_ref()),
        }
    }
}


/// Whether two type lists have the same views.
pub fn types_equal(a: &Vec<TypeKind>, b: &Vec<TypeKind>) -> (r: bool)
    ensures
        r == (types_view(a@) == types_view(b@)),
    decreases a@,
{
    proof {
        lemma_types_view_len(a@);
        lemma_types_view_len(b@);
    }
    if a.len() != b.len() {
        return false;
    }
    let mut i: usize = 0;
    while i < a.len()
        invariant
            i <= a@.len(),
            a@.len() == b@.len(),
            types_view(a@).len() == a@.len(),
            types_view(b@).len() == b@.len(),
            forall|k: int| 0 <= k < a@.len() ==> #[trigger] types_view(a@)[k] == a@[k]@,
            forall|k: int| 0 <= k < b@.len() ==> #[trigger] types_view(b@)[k] == b@[k]@,
            forall|j: int| 0 <= j < i ==> #[trigger] a@[j]@ == b@[j]@,
        decreases a@.len() - i,
    {
        proof {
            assert(decreases_to!(a@ => a@[i as int]));
        }
        if !a[i].equals(&b[i]) {
            assert(types_view(a@)[i as int] != types_view(b@)[i as int]);
            return false;
        }
        i = i + 1;
    }
    proof {
        lemma_types_view_ext(a@, b@);
    }
    true
}

impl TypeKind {
    /// Whether two types are the same type.
    pub fn equals(&self, other: &TypeKind) -> (r: bool)
        ensures
            r == (self@ == other@),
        decreases *self,
    {
        match (self, other) {
            (TypeKind::Unknown, TypeKind::Unknown) => true,
            (TypeKind::Int, TypeKind::Int) => true,
            (TypeKind::Float, TypeKind::Float) => true,
            (TypeKind::String, TypeKind::String) => true,
            (TypeKind::Bool, TypeKind::Bool) => true,
            (TypeKind::Nothing, TypeKind::Nothing) => true,
            (TypeKind::Vector(a), TypeKind::Vector(b)) => (**a).equals(&**b),
            (TypeKind::Function(fa), TypeKind::Function(fb)) => {
                let p = types_equal(&fa.0, &fb.0);
                let q = (*fa.1).equals(&*fb.1);
                p && q
            },
            (TypeKind::Class(ca), TypeKind::Class(cb)) => ca.name == cb.name && ca.module.0 == cb.module.0,
            _ => false,
        }
    }

    /// Two types are compatible when they are the same type or when either is unknown.
    pub fn is_compatible(&self, other: &TypeKind) -> (r: bool)
        ensures
            r == compatible(self@, other@),
    {
        if self.equals(other) {
            true
        } else {
            match (self, other) {
                (TypeKind::Unknown, _) => true,
                (_, TypeKind::Unknown) => true,
                _ => false,
            }
        }
    }

    pub fn is_unknown(&self) -> (r: bool)
        ensures
            r == (self@ == TypeV::Unknown),
    {
        match self {
            TypeKind::Unknown => true,
            _ => false,
        }
    }

    /// The type that a primitive type name stands for.
    pub fn from_primitive(primitive: &PrimitiveType) -> (r: TypeKind)
        ensures
            r@ == primitive_type(*primitive),
    {
        match primitive {
            PrimitiveType::Int => TypeKind::Int,
            PrimitiveType::Float => TypeKind::Float,
            PrimitiveType::String => TypeKind::String,
            PrimitiveType::Bool => TypeKind::Bool,
            PrimitiveType::Nothing => TypeKind::Nothing,
        }
    }
}

/// Compatibility of types: equal, or one of them unknown.
pub open spec fn compatible(a: TypeV, b: TypeV) -> bool {
    a == b || a == TypeV::Unknown || b == TypeV::Unknown
}

pub open spec fn primitive_type(p: PrimitiveType) -> TypeV {
    match p {
        PrimitiveType::Int => TypeV::Int,
        PrimitiveType::Float => TypeV::Float,
        PrimitiveType::String => TypeV::Str,
        PrimitiveType::Bool => TypeV::Bool,
        PrimitiveType::Nothing => TypeV::Nothing,
    }
}

/// Every type is compatible with itself.
pub proof fn law_compatible_reflexive(a: TypeV)
    ensures
        compatible(a, a),
{
}

/// Compatibility does not depend on the order of the two types.
pub proof fn law_compatible_symmetric(a: TypeV, b: TypeV)
    ensures
        compatible(a, b) == compatible(b, a),
{
}

/// The unknown type is compatible with every type.
pub proof fn law_unknown_compatible_with_all(a: TypeV)
    ensures
        compatible(TypeV::Unknown, a),
        compatible(a, TypeV::Unknown),
{
}

/// Two known types are compatible only when they are the same type.
pub proof fn law_known_types_compatible_iff_equal(a: TypeV, b: TypeV)
    requires
        a != TypeV::Unknown,
        b != TypeV::Unknown,
    ensures
        compatible(a, b) <==> a == b,
{
}

} // verus!
