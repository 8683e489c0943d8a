use vstd::prelude::*;
use crate::module::ModuleUID;
use crate::types::{ClassKind, FunctionType, FunctionTypeV, TypeKind, TypeV};

verus! {

/// The description of a class: its name, its module, its fields and the types of its methods.
/// Two class types are the same class when their names and modules are equal.
#[derive(Debug, PartialEq, Eq)]
pub struct ClassType {
    pub name: String,
    pub module: ModuleUID,
    pub kind: ClassKind,
    pub fields: Vec<(String, TypeKind)>,
    pub methods: Vec<(String, FunctionType)>,
}

pub struct ClassTypeV {
    pub name: Seq<char>,
    pub module: u64,
    pub kind: ClassKind,
    pub fields: Seq<(Seq<char>, TypeV)>,
    pub methods: Seq<(Seq<char>, FunctionTypeV)>,
}

pub open spec fn fields_view(s: Seq<(String, TypeKind)>) -> Seq<(Seq<char>, TypeV)> {
    s.map_values(|p: (String, TypeKind)| (p.0@, p.1@))
}

pub open spec fn methods_view(s: Seq<(String, FunctionType)>) -> Seq<(Seq<char>, FunctionTypeV)> {
    s.map_values(|p: (String, FunctionType)| (p.0@, p.1@))
}

impl View for ClassType {
    type V = ClassTypeV;

    open spec fn view(&self) -> ClassTypeV {
        ClassTypeV {
            name: self.name@,
            module: self.module.0,
            kind: self.kind,
            fields: fields_view(self.fields@),
            methods: methods_view(self.methods@),
        }
    }
}

pub fn clone_fields(v: &Vec<(String, TypeKind)>) -> (r: Vec<(String, TypeKind)>)
    ensures
        fields_view(r@) == fields_view(v@),
{
    let mut r: Vec<(String, TypeKind)> = Vec::new();
    let mut i: usize = 0;
    while i < v.len()
        invariant
            i <= v@.len(),
            r@.len() == i,
            forall|j: int| 0 <= j < i ==> (#[trigger] r@[j]).0@ == v@[j].0@ && r@[j].1@ == v@[j].1@,
        decreases v@.len() - i,
    {
        let name = v[i].0.clone();
        let t = v[i].1.clone_type();
        r.push((name, t));
        i = i + 1;
    }
    proof {
        assert(fields_view(r@) =~= fields_view(v@));
    }
    r
}

pub fn clone_methods(v: &Vec<(String, FunctionType)>) -> (r: Vec<(String, FunctionType)>)
    ensures
        methods_view(r@) == methods_view(v@),
{
    let mut r: Vec<(String, FunctionType)> = Vec::new();
    let mut i: usize = 0;
    while i < v.len()
        invariant
            i <= v@.len(),
            r@.len() == i,
            forall|j: int| 0 <= j < i ==> (#[trigger] r@[j]).0@ == v@[j].0@ && r@[j].1@ == v@[j].1@,
        decreases v@.len() - i,
    {
        let name = v[i].0.clone();
        let t = v[i].1.clone_fn_type();
        r.push((name, t));
        i = i + 1;
    }
    proof {
        assert(methods_view(r@) =~= methods_view(v@));
    }
    r
}

impl ClassType {
    pub fn clone_class(&self) -> (r: ClassType)
        ensures
            r@ == self@,
    {
        ClassType {
            name: self.name.clone(),
            module: self.module,
            kind: self.kind,
            fields: clone_fields(&self.fields),
            methods: clone_methods(&self.methods),
        }
    }
}

/// The type of the first field named `name`, if there is one.
pub open spec fn find_field(fields: Seq<(Seq<char>, TypeV)>, name: Seq<char>) -> Option<TypeV>
    decreases fields.len(),
{
    if fields.len() == 0 {
        None
    } else if fields[0].0 == name {
        Some(fields[0].1)
    } else {
        find_field(fields.drop_first(), name)
    }
}

/// The type of the first method named `name`, if there is one.
pub open spec fn find_method(methods: Seq<(Seq<char>, FunctionTypeV)>, name: Seq<char>) -> Option<FunctionTypeV>
    decreases methods.len(),
{
    if methods.len() == 0 {
        None
    } else if methods[0].0 == name {
        Some(methods[0].1)
    } else {
        find_method(methods.drop_first(), name)
    }
}

/// Looking a field up finds the first field with that name, and nothing where none has it.
pub proof fn law_first_field_found(fields: Seq<(Seq<char>, TypeV)>, name: Seq<char>)
    ensures
        find_field(fields, name) matches Some(t) ==> exists|i: int| 0 <= i < fields.len() && fields[i] == (name, t)
            && forall|j: int| 0 <= j < i ==> (#[trigger] fields[j]).0 != name,
        find_field(fields, name) is None <==> forall|i: int| 0 <= i < fields.len() ==> (#[trigger] fields[i]).0 != name,
    decreases fields.len(),
{
    if fields.len() > 0 {
        law_first_field_found(fields.drop_first(), name);
        if fields[0].0 == name {
            assert(fields[0] == (name, fields[0].1));
        } else {
            if let Some(t) = find_field(fields, name) {
                let i = choose|i: int| 0 <= i < fields.drop_first().len() && fields.drop_first()[i] == (name, t)
                    && forall|j: int| 0 <= j < i ==> (#[trigger] fields.drop_first()[j]).0 != name;
                assert(fields[i + 1] == (name, t));
                assert forall|j: int| 0 <= j < i + 1 implies (#[trigger] fields[j]).0 != name by {
                    if j > 0 {
                        assert(fields[j] == fields.drop_first()[j - 1]);
                    }
                }
            }
            assert((forall|i: int| 0 <= i < fields.len() ==> (#[trigger] fields[i]).0 != name)
                <==> (forall|i: int| 0 <= i < fields.drop_first().len() ==> (#[trigger] fields.drop_first()[i]).0 != name)) by {
                if forall|i: int| 0 <= i < fields.drop_first().len() ==> (#[trigger] fields.drop_first()[i]).0 != name {
                    assert forall|i: int| 0 <= i < fields.len() implies (#[trigger] fields[i]).0 != name by {
                        if i > 0 {
                            assert(fields[i] == fields.drop_first()[i - 1]);
                        }
                    }
                }
                if forall|i: int| 0 <= i < fields.len() ==> (#[trigger] fields[i]).0 != name {
                    assert forall|i: int| 0 <= i < fields.drop_first().len() implies (#[trigger] fields.drop_first()[i]).0 != name by {
                        assert(fields.drop_first()[i] == fields[i + 1]);
                    }
                }
            }
        }
    }
}

/// Looking a method up finds the first method with that name, and nothing where none has it.
pub proof fn law_first_method_found(methods: Seq<(Seq<char>, FunctionTypeV)>, name: Seq<char>)
    ensures
        find_method(methods, name) matches Some(t) ==> exists|i: int| 0 <= i < methods.len() && methods[i] == (name, t)
            && forall|j: int| 0 <= j < i ==> (#[trigger] methods[j]).0 != name,
        find_method(methods, name) is None <==> forall|i: int| 0 <= i < methods.len() ==> (#[trigger] methods[i]).0 != name,
    decreases methods.len(),
{
    if methods.len() > 0 {
        law_first_method_found(methods.drop_first(), name);
        if methods[0].0 == name {
            assert(methods[0] == (name, methods[0].1));
        } else {
            if let Some(t) = find_method(methods, name) {
                let i = choose|i: int| 0 <= i < methods.drop_first().len() && methods.drop_first()[i] == (name, t)
                    && forall|j: int| 0 <= j < i ==> (#[trigger] methods.drop_first()[j]).0 != name;
                assert(methods[i + 1] == (name, t));
                assert forall|j: int| 0 <= j < i + 1 implies (#[trigger] methods[j]).0 != name by {
                    if j > 0 {
                        assert(methods[j] == methods.drop_first()[j - 1]);
                    }
                }
            }
            assert((forall|i: int| 0 <= i < methods.len() ==> (#[trigger] methods[i]).0 != name)
                <==> (forall|i: int| 0 <= i < methods.drop_first().len() ==> (#[trigger] methods.drop_first()[i]).0 != name)) by {
                if forall|i: int| 0 <= i < methods.drop_first().len() ==> (#[trigger] methods.drop_first()[i]).0 != name {
                    assert forall|i: int| 0 <= i < methods.len() implies (#[trigger] methods[i]).0 != name by {
                        if i > 0 {
                            assert(methods[i] == methods.drop_first()[i - 1]);
                        }
                    }
                }
                if forall|i: int| 0 <= i < methods.len() ==> (#[trigger] methods[i]).0 != name {
                    assert forall|i: int| 0 <= i < methods.drop_first().len() implies (#[trigger] methods.drop_first()[i]).0 != name by {
                        assert(methods.drop_first()[i] == methods[i + 1]);
                    }
                }
            }
        }
    }
}

} // verus!
