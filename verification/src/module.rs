use vstd::prelude::*;
use std::hash::{Hash, Hasher};
use std::sync::Arc;
use crate::ast::Function;
use crate::class::ClassType;
use crate::tokens::LiteralKind;
use crate::types::{FunctionType, TypeKind};

verus! {

/// The name under which a module is imported, as written in source code.
pub struct ModuleIdentifier(pub String);

/// The unique identifier of a loaded module.
#[derive(Clone, Copy, Debug, PartialEq, Eq, Hash, Structural)]
pub struct ModuleUID(pub u64);

/// The 64-bit digest that `std::collections::hash_map::DefaultHasher` gives of a string.
pub uninterp spec fn default_hash_of(s: Seq<char>) -> u64;

/// Hashes a string with `DefaultHasher::new()`, as `Hash for String` feeds it.
/// `DefaultHasher::new()` always starts from the same keys, so the digest depends on the
/// characters alone; what the digest is, is left to the name `default_hash_of`.
#[verifier::external_body]
fn hash_string(s: &String) -> (r: u64)
    ensures
        r == default_hash_of(s@),
{
    let mut hasher = std::collections::hash_map::DefaultHasher::new();
    s.hash(&mut hasher);
    hasher.finish()
}

impl ModuleUID {
    /// The identifier of the module named `string`.
    pub fn from_string(string: String) -> (r: ModuleUID)
        ensures
            r.0 == default_hash_of(string@),
    {
        ModuleUID(hash_string(&string))
    }
}

/// A function of a module: its type and, where it is defined, its value.
pub struct FunctionDefinition {
    pub data: Option<Arc<Function>>,
    pub metadata: FunctionType,
}

/// A global variable of a module: its type and, where it is defined, its value.
pub struct VariableDefinition {
    pub data: Option<LiteralKind>,
    pub metadata: TypeKind,
}

/// The methods of a class, with their values.
pub struct Class {
    pub methods: Vec<(String, FunctionDefinition)>,
}

impl Class {
    pub fn new(methods: Vec<(String, FunctionDefinition)>) -> (r: Class)
        ensures
            r.methods == methods,
    {
        Class { methods }
    }
}

/// A class of a module: its methods and its description.
pub struct ClassDefinition {
    pub data: Class,
    pub metadata: ClassType,
}

/// Another handle on a shared value: `Arc::clone`, which the standard library documents as
/// making a new pointer to the same allocation, so the value seen through it is the same.
#[verifier::external_body]
pub(crate) fn share<T>(a: &Arc<T>) -> (r: Arc<T>)
    ensures
        r == *a,
{
    Arc::clone(a)
}

/// The index of the first entry named `name`.
pub open spec fn first_named<T>(s: Seq<(String, T)>, name: Seq<char>) -> Option<int>
    decreases s.len(),
{
    if s.len() == 0 {
        None
    } else if s[0].0@ == name {
        Some(0)
    } else {
        match first_named(s.drop_first(), name) {
            Some(i) => Some(i + 1),
            None => None,
        }
    }
}

proof fn lemma_first_named<T>(s: Seq<(String, T)>, name: Seq<char>)
    ensures
        first_named(s, name) matches Some(i) ==> 0 <= i < s.len() && s[i].0@ == name
            && forall|j: int| 0 <= j < i ==> #[trigger] s[j].0@ != name,
        first_named(s, name) is None ==> forall|j: int| 0 <= j < s.len() ==> #[trigger] s[j].0@ != name,
    decreases s.len(),
{
    if s.len() > 0 {
        lemma_first_named(s.drop_first(), name);
        assert forall|j: int| 0 <= j < s.len() - 1 implies #[trigger] s.drop_first()[j] == s[j + 1] by {}
        if s[0].0@ != name {
            match first_named(s.drop_first(), name) {
                Some(k) => {
                    assert forall|j: int| 0 <= j < k + 1 implies #[trigger] s[j].0@ != name by {
                        if j > 0 {
                            assert(s.drop_first()[j - 1] == s[j]);
                        }
                    }
                },
                None => {
                    assert forall|j: int| 0 <= j < s.len() implies #[trigger] s[j].0@ != name by {
                        if j > 0 {
                            assert(s.drop_first()[j - 1] == s[j]);
                        }
                    }
                },
            }
        }
    }
}

/// Finds the first entry named `name`.
fn find_first_named<T>(s: &Vec<(String, T)>, name: &String) -> (r: Option<usize>)
    ensures
        match r {
            Some(i) => first_named(s@, name@) == Some(i as int) && i < s@.len(),
            None => first_named(s@, name@) is None,
        },
{
    proof {
        lemma_first_named(s@, name@);
    }
    let mut i: usize = 0;
    while i < s.len()
        invariant
            i <= s@.len(),
            forall|j: int| 0 <= j < i ==> #[trigger] s@[j].0@ != name@,
            first_named(s@, name@) matches Some(k) ==> 0 <= k < s@.len() && s@[k].0@ == name@
                && forall|j: int| 0 <= j < k ==> #[trigger] s@[j].0@ != name@,
            first_named(s@, name@) is None ==> forall|j: int| 0 <= j < s@.len() ==> #[trigger] s@[j].0@ != name@,
        decreases s@.len() - i,
    {
        if s[i].0 == *name {
            return Some(i);
        }
        i = i + 1;
    }
    None
}

impl ClassDefinition {
    /// The type of the method `name`, as the class describes it first, with its value as the
    /// class defines it first.
    pub fn get_method_def(&self, name: &String) -> (r: Option<FunctionDefinition>)
        ensures
            match first_named(self.metadata.methods@, name@) {
                None => r is None,
                Some(i) => r matches Some(d) && d.metadata@ == self.metadata.methods@[i].1@
                    && d.data == match first_named(self.data.methods@, name@) {
                        Some(j) => self.data.methods@[j].1.data,
                        None => None,
                    },
            },
    {
        let i = find_first_named(&self.metadata.methods, name)?;
        let metadata = self.metadata.methods[i].1.clone_fn_type();
        let data = match find_first_named(&self.data.methods, name) {
            Some(j) => match &self.data.methods[j].1.data {
                Some(f) => Some(share(f)),
                None => None,
            },
            None => None,
        };
        Some(FunctionDefinition { data, metadata })
    }
}

/// What a module defines.
pub enum ModuleFeature {
    Function(FunctionDefinition),
    Variable(VariableDefinition),
    Class(ClassDefinition),
}

/// A parsed module: its name, its identifier, the modules that it imports and what it defines.
pub struct Module {
    pub id: ModuleIdentifier,
    pub uid: ModuleUID,
    pub imports: Vec<ModuleUID>,
    pub features: Vec<(String, ModuleFeature)>,
}

/// The index of the last entry named `name`: a later definition of a name replaces an earlier one.
pub open spec fn last_named<T>(s: Seq<(String, T)>, name: Seq<char>) -> Option<int>
    decreases s.len(),
{
    if s.len() == 0 {
        None
    } else if s.last().0@ == name {
        Some(s.len() - 1)
    } else {
        last_named(s.drop_last(), name)
    }
}

/// Finds the last entry named `name`.
pub fn find_last_named<T>(s: &Vec<(String, T)>, name: &String) -> (r: Option<usize>)
    ensures
        match r {
            Some(i) => last_named(s@, name@) == Some(i as int) && i < s@.len(),
            None => last_named(s@, name@) is None,
        },
{
    let mut i = s.len();
    proof {
        assert(s@.take(i as int) =~= s@);
    }
    while i > 0
        invariant
            i <= s@.len(),
            last_named(s@, name@) == last_named(s@.take(i as int), name@),
        decreases i,
    {
        let k = i - 1;
        proof {
            let t = s@.take(i as int);
            assert(t.last() == s@[k as int]);
            assert(t.drop_last() == s@.take(k as int));
        }
        if s[k].0 == *name {
            return Some(k);
        }
        i = k;
    }
    proof {
        assert(s@.take(0) =~= Seq::<(String, T)>::empty());
    }
    None
}

impl Module {
    /// The function defined under `name`, if what the name defines is a function.
    pub fn get_func_feature(&self, name: &String) -> (r: Option<&FunctionDefinition>)
        ensures
            match last_named(self.features@, name@) {
                Some(i) => match self.features@[i].1 {
                    ModuleFeature::Function(d) => r == Some(&d),
                    _ => r is None,
                },
                None => r is None,
            },
    {
        match find_last_named(&self.features, name) {
            Some(i) => match &self.features[i].1 {
                ModuleFeature::Function(d) => Some(d),
                _ => None,
            },
            None => None,
        }
    }

    /// The variable defined under `name`, if what the name defines is a variable.
    pub fn get_var_feature(&self, name: &String) -> (r: Option<&VariableDefinition>)
        ensures
            match last_named(self.features@, name@) {
                Some(i) => match self.features@[i].1 {
                    ModuleFeature::Variable(d) => r == Some(&d),
                    _ => r is None,
                },
                None => r is None,
            },
    {
        match find_last_named(&self.features, name) {
            Some(i) => match &self.features[i].1 {
                ModuleFeature::Variable(d) => Some(d),
                _ => None,
            },
            None => None,
        }
    }

    /// The class defined under `name`, if what the name defines is a class.
    pub fn get_class_feature(&self, name: &String) -> (r: Option<&ClassDefinition>)
        ensures
            match last_named(self.features@, name@) {
                Some(i) => match self.features@[i].1 {
                    ModuleFeature::Class(d) => r == Some(&d),
                    _ => r is None,
                },
                None => r is None,
            },
    {
        match find_last_named(&self.features, name) {
            Some(i) => match &self.features[i].1 {
                ModuleFeature::Class(d) => Some(d),
                _ => None,
            },
            None => None,
        }
    }
}

} // verus!
