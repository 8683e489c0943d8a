use vstd::prelude::*;
use smallvec::SmallVec;
use crate::types::{TypeKind, TypeV};

verus! {

/// How many names a scope holds before its storage moves to the heap.
pub const SCOPE_SIZE: usize = 16;

/// The most items one block's storage holds: a machine limit. The storage grows its capacity to
/// the next power of two above its length, and an item (a `String` or a `TypeKind`) takes less
/// than 64 bytes, so below this many items the capacity stays under `isize::MAX` bytes and
/// growing it never overflows, on 32-bit and 64-bit targets alike.
pub const SCOPE_LIMIT: usize = usize::MAX / 256;

/// The names declared in a scope, held in a `SmallVec` in a private field.
#[verifier::external_body]
pub struct ScopeNames {
    v: SmallVec<[String; SCOPE_SIZE]>,
}

/// The types declared in a scope, held in a `SmallVec` in a private field.
#[verifier::external_body]
pub struct ScopeTypes {
    v: SmallVec<[TypeKind; SCOPE_SIZE]>,
}

/// The names that a scope's name storage holds, in the order they were pushed.
pub uninterp spec fn scope_names(v: ScopeNames) -> Seq<Seq<char>>;

/// The types that a scope's type storage holds, in the order they were pushed.
pub uninterp spec fn scope_types(v: ScopeTypes) -> Seq<TypeV>;

/// `SmallVec::new`: an empty vector.
#[verifier::external_body]
pub(crate) fn names_new() -> (r: ScopeNames)
    ensures
        scope_names(r) == Seq::<Seq<char>>::empty(),
{
    ScopeNames { v: SmallVec::new() }
}

/// `SmallVec::push`: appends an item at the end. It panics when growing the storage overflows
/// the capacity computation, which cannot happen below `SCOPE_LIMIT` items.
#[verifier::external_body]
pub(crate) fn names_push(v: &mut ScopeNames, name: String)
    requires
        scope_names(*old(v)).len() < SCOPE_LIMIT,
    ensures
        scope_names(*final(v)) == scope_names(*old(v)).push(name@),
{
    v.v.push(name)
}

/// `SmallVec::len`: the number of items.
#[verifier::external_body]
pub(crate) fn names_len(v: &ScopeNames) -> (r: usize)
    ensures
        r == scope_names(*v).len(),
{
    v.v.len()
}

/// Indexing a `SmallVec` (through its slice): the item at position `i`.
#[verifier::external_body]
pub(crate) fn names_at(v: &ScopeNames, i: usize) -> (r: &String)
    requires
        i < scope_names(*v).len(),
    ensures
        r@ == scope_names(*v)[i as int],
{
    &v.v[i]
}

/// `SmallVec::new`: an empty vector.
#[verifier::external_body]
pub(crate) fn types_new() -> (r: ScopeTypes)
    ensures
        scope_types(r) == Seq::<TypeV>::empty(),
{
    ScopeTypes { v: SmallVec::new() }
}

/// `SmallVec::push`: appends an item at the end. It panics when growing the storage overflows
/// the capacity computation, which cannot happen below `SCOPE_LIMIT` items.
#[verifier::external_body]
pub(crate) fn types_push(v: &mut ScopeTypes, t: TypeKind)
    requires
        scope_types(*old(v)).len() < SCOPE_LIMIT,
    ensures
        scope_types(*final(v)) == scope_types(*old(v)).push(t@),
{
    v.v.push(t)
}

/// `SmallVec::len`: the number of items.
#[verifier::external_body]
pub(crate) fn types_len(v: &ScopeTypes) -> (r: usize)
    ensures
        r == scope_types(*v).len(),
{
    v.v.len()
}

/// Indexing a `SmallVec` (through its slice): the item at position `i`.
#[verifier::external_body]
pub(crate) fn types_at(v: &ScopeTypes, i: usize) -> (r: &TypeKind)
    requires
        i < scope_types(*v).len(),
    ensures
        r@ == scope_types(*v)[i as int],
{
    &v.v[i]
}

} // verus!
