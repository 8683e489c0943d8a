use vstd::prelude::*;
use std::sync::Arc;
use crate::ast::Function;
use crate::module::share;
use crate::named::{named_map, named_get, named_set, names_of, unique_names, lemma_named_map_dom, lemma_named_map_len, lemma_named_map_lookup};
use crate::module::last_named;

verus! {

broadcast use {vstd::std_specs::vec::axiom_spec_len, vstd::std_specs::vec::axiom_vec_decreases_to_view};

/// A value of the language at run time. A float is held as the bit pattern of its `f32` value.
pub enum LangValue {
    Nothing,
    Int(i32),
    Float(u32),
    Bool(bool),
    String(String),
    Function(Arc<Function>),
    Vector(Vec<LangValue>),
    Object(LangObject),
}

/// The mathematical value of a `LangValue`: a vector is a sequence, an object the handle of its
/// field table in the object heap.
pub enum LangValueV {
    Nothing,
    Int(i32),
    Float(u32),
    Bool(bool),
    Str(Seq<char>),
    Function(Arc<Function>),
    Vector(Seq<LangValueV>),
    Object(usize),
}

impl LangValue {
    pub open spec fn view_value(&self) -> LangValueV
        decreases *self, 0nat,
    {
        match self {
            LangValue::Nothing => LangValueV::Nothing,
            LangValue::Int(i) => LangValueV::Int(*i),
            LangValue::Float(f) => LangValueV::Float(*f),
            LangValue::Bool(b) => LangValueV::Bool(*b),
            LangValue::String(s) => LangValueV::Str(s@),
            LangValue::Function(f) => LangValueV::Function(*f),
            LangValue::Vector(v) => LangValueV::Vector(values_view(v@)),
            LangValue::Object(o) => LangValueV::Object(o.id),
        }
    }
}

impl View for LangValue {
    type V = LangValueV;

    open spec fn view(&self) -> LangValueV {
        self.view_value()
    }
}

/// The mathematical values of a list of values.
pub open spec fn values_view(s: Seq<LangValue>) -> Seq<LangValueV>
    decreases s, 0nat,
{
    if s.len() == 0 {
        Seq::empty()
    } else {
        values_view(s.drop_last()).push(s.last().view_value())
    }
}

/// Named values read as a map: a later entry of a name replaces an earlier one.
pub open spec fn fields_view(s: Seq<(String, LangValue)>) -> Map<Seq<char>, LangValueV>
    decreases s, 0nat,
{
    if s.len() == 0 {
        Map::empty()
    } else {
        fields_view(s.drop_last()).insert(s.last().0@, s.last().1.view_value())
    }
}

/// The map of named values is the map of the entries, each value taken by its view.
pub(crate) proof fn lemma_fields_view(s: Seq<(String, LangValue)>)
    ensures
        fields_view(s).dom() == named_map(s).dom(),
        forall|k: Seq<char>| #[trigger] fields_view(s).contains_key(k) ==> fields_view(s)[k] == named_map(s)[k]@,
    decreases s.len(),
{
    if s.len() > 0 {
        lemma_fields_view(s.drop_last());
        assert(fields_view(s).dom() =~= named_map(s).dom());
    }
}

/// Equal lists have equal views; a list taken one by one.
proof fn lemma_values_view_push(s: Seq<LangValue>, v: LangValue)
    ensures
        values_view(s.push(v)) == values_view(s).push(v@),
{
    assert(s.push(v).drop_last() == s);
}

/// The kind of a value, without its contents.
#[derive(Clone, Copy, Debug, PartialEq, Eq, Structural)]
pub enum LangValueDiscriminant {
    Nothing,
    Int,
    Float,
    Bool,
    String,
    Function,
    Vector,
    Object,
}

/// The kind of a value.
pub open spec fn discriminant_spec(v: LangValue) -> LangValueDiscriminant {
    match v {
        LangValue::Nothing => LangValueDiscriminant::Nothing,
        LangValue::Int(_) => LangValueDiscriminant::Int,
        LangValue::Float(_) => LangValueDiscriminant::Float,
        LangValue::Bool(_) => LangValueDiscriminant::Bool,
        LangValue::String(_) => LangValueDiscriminant::String,
        LangValue::Function(_) => LangValueDiscriminant::Function,
        LangValue::Vector(_) => LangValueDiscriminant::Vector,
        LangValue::Object(_) => LangValueDiscriminant::Object,
    }
}

impl LangValue {
    /// The kind of this value.
    pub fn discriminant(&self) -> (r: LangValueDiscriminant)
        ensures
            r == discriminant_spec(*self),
    {
        match self {
            LangValue::Nothing => LangValueDiscriminant::Nothing,
            LangValue::Int(_) => LangValueDiscriminant::Int,
            LangValue::Float(_) => LangValueDiscriminant::Float,
            LangValue::Bool(_) => LangValueDiscriminant::Bool,
            LangValue::String(_) => LangValueDiscriminant::String,
            LangValue::Function(_) => LangValueDiscriminant::Function,
            LangValue::Vector(_) => LangValueDiscriminant::Vector,
            LangValue::Object(_) => LangValueDiscriminant::Object,
        }
    }

    /// A copy of this value; a function is shared.
    pub fn clone_value(&self) -> (r: LangValue)
        ensures
            r@ == self@,
        decreases *self,
    {
        match self {
            LangValue::Nothing => LangValue::Nothing,
            LangValue::Int(i) => LangValue::Int(*i),
            LangValue::Float(f) => LangValue::Float(*f),
            LangValue::Bool(b) => LangValue::Bool(*b),
            LangValue::String(s) => LangValue::String(s.clone()),
            LangValue::Function(f) => LangValue::Function(share(f)),
            LangValue::Vector(v) => LangValue::Vector(clone_values(v)),
            LangValue::Object(o) => LangValue::Object(o.clone_object()),
        }
    }

    /// The unit value, if this is `Nothing`.
    pub fn as_unit(&self) -> (r: Option<()>)
        ensures
            r is Some <==> *self is Nothing,
    {
        match self {
            LangValue::Nothing => Some(()),
            _ => None,
        }
    }

    /// The integer, if this is one.
    pub fn as_i32(&self) -> (r: Option<i32>)
        ensures
            match *self {
                LangValue::Int(i) => r == Some(i),
                _ => r is None,
            },
    {
        match self {
            LangValue::Int(i) => Some(*i),
            _ => None,
        }
    }

    /// The boolean, if this is one.
    pub fn as_bool(&self) -> (r: Option<bool>)
        ensures
            match *self {
                LangValue::Bool(b) => r == Some(b),
                _ => r is None,
            },
    {
        match self {
            LangValue::Bool(b) => Some(*b),
            _ => None,
        }
    }

    /// A copy of the string, if this is one.
    pub fn as_string(&self) -> (r: Option<String>)
        ensures
            match *self {
                LangValue::String(s) => r == Some(s),
                _ => r is None,
            },
    {
        match self {
            LangValue::String(s) => Some(s.clone()),
            _ => None,
        }
    }
}

/// Copies a list of values.
pub fn clone_values(v: &Vec<LangValue>) -> (r: Vec<LangValue>)
    ensures
        values_view(r@) == values_view(v@),
    decreases v@,
{
    let mut r: Vec<LangValue> = Vec::new();
    let mut i: usize = 0;
    proof {
        assert(r@ =~= Seq::<LangValue>::empty());
        assert(v@.take(0) =~= Seq::<LangValue>::empty());
    }
    while i < v.len()
        invariant
            i <= v@.len(),
            values_view(r@) == values_view(v@.take(i as int)),
        decreases v@.len() - i,
    {
        proof {
            assert(decreases_to!(v@ => v@[i as int]));
        }
        let c = v[i].clone_value();
        proof {
            lemma_values_view_push(r@, c);
            lemma_values_view_push(v@.take(i as int), v@[i as int]);
            assert(v@.take(i + 1) == v@.take(i as int).push(v@[i as int]));
        }
        r.push(c);
        i = i + 1;
    }
    proof {
        assert(v@.take(v@.len() as int) == v@);
    }
    r
}

/// The field tables of the objects of a run: an object is a handle of one table, and every copy
/// of an object shares it, so a field written through one copy is read through all of them.
pub struct ObjectHeap {
    pub tables: Vec<Vec<(String, LangValue)>>,
}

impl View for ObjectHeap {
    type V = Seq<Map<Seq<char>, LangValueV>>;

    open spec fn view(&self) -> Seq<Map<Seq<char>, LangValueV>> {
        self.tables@.map_values(|t: Vec<(String, LangValue)>| fields_view(t@))
    }
}

impl ObjectHeap {
    /// No table holds a field twice.
    pub open spec fn wf(&self) -> bool {
        forall|i: int| 0 <= i < self.tables@.len() ==> unique_names(#[trigger] self.tables@[i]@)
    }

    /// A heap without objects.
    pub fn new() -> (r: ObjectHeap)
        ensures
            r.wf(),
            r@ == Seq::<Map<Seq<char>, LangValueV>>::empty(),
    {
        let r = ObjectHeap { tables: Vec::new() };
        proof {
            assert(r@ =~= Seq::<Map<Seq<char>, LangValueV>>::empty());
        }
        r
    }

    /// Adds a table with the fields `fields` and gives its handle.
    fn add_table(&mut self, fields: Vec<(String, LangValue)>) -> (r: LangObject)
        requires
            old(self).wf(),
            unique_names(fields@),
        ensures
            final(self).wf(),
            final(self)@ == old(self)@.push(fields_view(fields@)),
            r.id == old(self)@.len(),
    {
        let ghost fv = fields_view(fields@);
        let id = self.tables.len();
        self.tables.push(fields);
        proof {
            assert(self@ =~= old(self)@.push(fv));
        }
        LangObject { id }
    }
}

/// The fields of object `id` in heap `h`: none for a handle that the heap does not hold.
pub open spec fn heap_fields(h: Seq<Map<Seq<char>, LangValueV>>, id: usize) -> Map<Seq<char>, LangValueV> {
    if id < h.len() { h[id as int] } else { Map::empty() }
}

/// Heap `h` after field `name` of object `id` is given the value `v`; unchanged for a handle
/// that the heap does not hold.
pub open spec fn heap_set(h: Seq<Map<Seq<char>, LangValueV>>, id: usize, name: Seq<char>, v: LangValueV)
    -> Seq<Map<Seq<char>, LangValueV>>
{
    if id < h.len() { h.update(id as int, h[id as int].insert(name, v)) } else { h }
}

/// An object of the language: the handle of its field table in an `ObjectHeap`. Copies of an
/// object are the same handle, so they share their fields.
#[derive(Clone, Copy)]
pub struct LangObject {
    pub id: usize,
}

impl LangObject {
    /// A new object without fields.
    pub fn new(heap: &mut ObjectHeap) -> (r: LangObject)
        requires
            old(heap).wf(),
        ensures
            final(heap).wf(),
            final(heap)@ == old(heap)@.push(Map::empty()),
            r.id == old(heap)@.len(),
    {
        let fields: Vec<(String, LangValue)> = Vec::new();
        proof {
            assert(crate::named::names_of(fields@) =~= Seq::<Seq<char>>::empty());
            assert(fields_view(fields@) =~= Map::<Seq<char>, LangValueV>::empty());
        }
        heap.add_table(fields)
    }

    /// A new object with the given fields; a later entry of a name replaces an earlier one.
    pub fn from_map(heap: &mut ObjectHeap, map: Vec<(String, LangValue)>) -> (r: LangObject)
        requires
            old(heap).wf(),
        ensures
            final(heap).wf(),
            final(heap)@ == old(heap)@.push(fields_view(map@)),
            r.id == old(heap)@.len(),
    {
        let mut fields: Vec<(String, LangValue)> = Vec::new();
        let mut map = map;
        let ghost entries = map@;
        let mut i: usize = 0;
        let n = map.len();
        proof {
            assert(crate::named::names_of(fields@) =~= Seq::<Seq<char>>::empty());
            assert(entries.take(0) =~= Seq::<(String, LangValue)>::empty());
            lemma_fields_view(fields@);
            assert(fields_view(fields@) =~= fields_view(entries.take(0)));
        }
        while map.len() > 0
            invariant
                unique_names(fields@),
                i + map@.len() == n,
                n == entries.len(),
                map@ == entries.subrange(i as int, n as int),
                fields_view(fields@) == fields_view(entries.take(i as int)),
            decreases map@.len(),
        {
            let (name, value) = map.remove(0);
            let ghost before = fields@;
            let ghost entry = (name, value);
            proof {
                assert(entries.take(i + 1).drop_last() == entries.take(i as int));
                assert(entries.take(i + 1).last() == entries[i as int]);
                assert(entry == entries[i as int]);
            }
            let ghost nv = value@;
            let ghost nk = name@;
            named_set(&mut fields, name, value);
            proof {
                lemma_fields_view(before);
                lemma_fields_view(fields@);
                assert(fields_view(fields@) =~= fields_view(before).insert(nk, nv));
            }
            i = i + 1;
        }
        proof {
            assert(entries.take(n as int) == entries);
        }
        heap.add_table(fields)
    }

    /// The value of field `name`; `Nothing` for a field that the object lacks.
    pub fn get(&self, heap: &ObjectHeap, name: &String) -> (r: LangValue)
        ensures
            r@ == object_get(heap_fields(heap@, self.id), name@),
    {
        if self.id < heap.tables.len() {
            let table = &heap.tables[self.id];
            proof {
                lemma_fields_view(table@);
            }
            match named_get(table, name) {
                Some(value) => value.clone_value(),
                None => LangValue::Nothing,
            }
        } else {
            LangValue::Nothing
        }
    }

    /// Gives field `name` the value `value`, for this object and every copy of it.
    pub fn set(&mut self, heap: &mut ObjectHeap, name: String, value: LangValue)
        requires
            old(heap).wf(),
        ensures
            *final(self) == *old(self),
            final(heap).wf(),
            final(heap)@ == heap_set(old(heap)@, old(self).id, name@, value@),
    {
        if self.id < heap.tables.len() {
            let ghost nk = name@;
            let ghost nv = value@;
            let ghost before = heap.tables@[self.id as int]@;
            named_set(&mut heap.tables[self.id], name, value);
            proof {
                let after = heap.tables@[self.id as int]@;
                lemma_fields_view(before);
                lemma_fields_view(after);
                assert(fields_view(after) =~= fields_view(before).insert(nk, nv));
                assert(heap@ =~= heap_set(old(heap)@, self.id, nk, nv));
            }
        }
    }

    /// The number of fields.
    pub fn len(&self, heap: &ObjectHeap) -> (r: usize)
        requires
            heap.wf(),
        ensures
            r == heap_fields(heap@, self.id).dom().len(),
    {
        if self.id < heap.tables.len() {
            let table = &heap.tables[self.id];
            proof {
                lemma_named_map_len(table@);
                lemma_fields_view(table@);
                assert(fields_view(table@).dom() == named_map(table@).dom());
            }
            table.len()
        } else {
            proof {
                assert(Map::<Seq<char>, LangValueV>::empty().dom() =~= Set::<Seq<char>>::empty());
            }
            0
        }
    }

    /// A copy of this object: the same handle, sharing its fields.
    pub fn clone_object(&self) -> (r: LangObject)
        ensures
            r == *self,
    {
        LangObject { id: self.id }
    }
}

/// Conversion between values of Rust and values of the language.
pub trait ConvertLangValue: Sized {
    /// The value of the language that a Rust value stands for.
    spec fn lang_value_of(v: Self) -> LangValueV;

    /// The value of the language that `val` stands for.
    fn from(val: Self) -> (r: LangValue)
        ensures
            r@ == Self::lang_value_of(val),
    ;

    /// The Rust value that stands for `val`, if there is one.
    fn into(val: &LangValue) -> (r: Option<Self>)
        ensures
            r matches Some(x) ==> Self::lang_value_of(x) == val@,
            r is None ==> forall|x: Self| Self::lang_value_of(x) != val@,
    ;
}

impl ConvertLangValue for LangValue {
    open spec fn lang_value_of(v: Self) -> LangValueV {
        v@
    }

    fn from(val: Self) -> (r: LangValue) {
        val
    }

    fn into(val: &LangValue) -> (r: Option<Self>) {
        Some(val.clone_value())
    }
}

impl ConvertLangValue for () {
    open spec fn lang_value_of(v: Self) -> LangValueV {
        LangValueV::Nothing
    }

    fn from(val: Self) -> (r: LangValue) {
        LangValue::Nothing
    }

    fn into(val: &LangValue) -> (r: Option<Self>) {
        val.as_unit()
    }
}

impl ConvertLangValue for i32 {
    open spec fn lang_value_of(v: Self) -> LangValueV {
        LangValueV::Int(v)
    }

    fn from(val: Self) -> (r: LangValue) {
        LangValue::Int(val)
    }

    fn into(val: &LangValue) -> (r: Option<Self>) {
        val.as_i32()
    }
}

impl ConvertLangValue for bool {
    open spec fn lang_value_of(v: Self) -> LangValueV {
        LangValueV::Bool(v)
    }

    fn from(val: Self) -> (r: LangValue) {
        LangValue::Bool(val)
    }

    fn into(val: &LangValue) -> (r: Option<Self>) {
        val.as_bool()
    }
}

impl ConvertLangValue for String {
    open spec fn lang_value_of(v: Self) -> LangValueV {
        LangValueV::Str(v@)
    }

    fn from(val: Self) -> (r: LangValue) {
        LangValue::String(val)
    }

    fn into(val: &LangValue) -> (r: Option<Self>) {
        val.as_string()
    }
}

impl ConvertLangValue for LangObject {
    open spec fn lang_value_of(v: Self) -> LangValueV {
        LangValueV::Object(v.id)
    }

    fn from(val: Self) -> (r: LangValue) {
        LangValue::Object(val)
    }

    fn into(val: &LangValue) -> (r: Option<Self>) {
        match val {
            LangValue::Object(obj) => Some(obj.clone_object()),
            _ => None,
        }
    }
}

/// What reading field `name` of an object with fields `m` gives.
pub open spec fn object_get(m: Map<Seq<char>, LangValueV>, name: Seq<char>) -> LangValueV {
    if m.contains_key(name) { m[name] } else { LangValueV::Nothing }
}

/// Reading a field gives what was last written to it; writing one field leaves the others as
/// they were; the object counts one more field only when the written one is new.
pub proof fn law_object_get_after_set(m: Map<Seq<char>, LangValueV>, name: Seq<char>, v: LangValueV, other: Seq<char>)
    requires
        m.dom().finite(),
    ensures
        object_get(m.insert(name, v), name) == v,
        other != name ==> object_get(m.insert(name, v), other) == object_get(m, other),
        m.insert(name, v).dom().len() == if m.contains_key(name) { m.dom().len() } else { m.dom().len() + 1 },
{
    if m.contains_key(name) {
        assert(m.insert(name, v).dom() =~= m.dom());
    }
}

/// A field written through one copy of an object is read through every copy, as a copy is the
/// same handle; the other fields of the object, and every other object, keep what they held.
pub proof fn law_copies_share_fields(
    h: Seq<Map<Seq<char>, LangValueV>>,
    a: LangObject,
    copy: LangObject,
    c: LangObject,
    name: Seq<char>,
    v: LangValueV,
    other: Seq<char>,
)
    requires
        copy == a,
        a.id < h.len(),
        h[a.id as int].dom().finite(),
        c.id != a.id,
    ensures
        object_get(heap_fields(heap_set(h, a.id, name, v), copy.id), name) == v,
        other != name ==> object_get(heap_fields(heap_set(h, a.id, name, v), copy.id), other)
            == object_get(heap_fields(h, copy.id), other),
        heap_fields(heap_set(h, a.id, name, v), copy.id).dom().len()
            == if heap_fields(h, a.id).contains_key(name) { heap_fields(h, a.id).dom().len() } else { heap_fields(h, a.id).dom().len() + 1 },
        heap_fields(heap_set(h, a.id, name, v), c.id) == heap_fields(h, c.id),
{
    law_object_get_after_set(h[a.id as int], name, v, other);
}

/// An object made from a list of distinct names holds one field per entry, each with the value
/// of its entry; a name not in the list reads `Nothing`.
pub proof fn law_from_map_fields(map: Seq<(String, LangValue)>, k: Seq<char>)
    requires
        unique_names(map),
    ensures
        fields_view(map).dom().len() == map.len(),
        forall|i: int| 0 <= i < map.len() ==> object_get(fields_view(map), (#[trigger] map[i]).0@) == map[i].1@,
        (forall|i: int| 0 <= i < map.len() ==> (#[trigger] map[i]).0@ != k) ==> object_get(fields_view(map), k) == LangValueV::Nothing,
{
    lemma_named_map_len(map);
    lemma_named_map_dom(map);
    lemma_fields_view(map);
    assert forall|i: int| 0 <= i < map.len() implies object_get(fields_view(map), (#[trigger] map[i]).0@) == map[i].1@ by {
        let key = map[i].0@;
        lemma_named_map_lookup(map, key);
        assert(names_of(map)[i] == key);
        assert(names_of(map).to_set().contains(key));
        let j = last_named(map, key).unwrap();
        assert(names_of(map)[j] == key);
    }
    if forall|i: int| 0 <= i < map.len() ==> (#[trigger] map[i]).0@ != k {
        if names_of(map).to_set().contains(k) {
            let j = choose|j: int| 0 <= j < names_of(map).len() && names_of(map)[j] == k;
            assert(map[j].0@ == k);
        }
    }
}

} // verus!
