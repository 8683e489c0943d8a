use vstd::prelude::*;
use crate::lang_value::{ConvertLangValue, LangValue, LangValueDiscriminant, LangValueV, discriminant_spec, fields_view};
use crate::named::{named_get, named_map};

verus! {

broadcast use vstd::std_specs::vec::axiom_spec_len;

/// Named values offered to every value of one kind (the methods of a string, say).
pub struct Helper {
    pub fields: Vec<(String, LangValue)>,
}

impl View for Helper {
    type V = Map<Seq<char>, LangValueV>;

    open spec fn view(&self) -> Map<Seq<char>, LangValueV> {
        fields_view(self.fields@)
    }
}

/// The map of named values is the map of the entries, each value taken by its view.
proof fn lemma_helper_view(s: Seq<(String, LangValue)>)
    ensures
        fields_view(s).dom() == named_map(s).dom(),
        forall|k: Seq<char>| #[trigger] fields_view(s).contains_key(k) ==> fields_view(s)[k] == named_map(s)[k]@,
    decreases s.len(),
{
    if s.len() > 0 {
        lemma_helper_view(s.drop_last());
        assert(fields_view(s).dom() =~= named_map(s).dom());
    }
}

impl Helper {
    /// A helper without values.
    pub fn new() -> (r: Helper)
        ensures
            r@ == Map::<Seq<char>, LangValueV>::empty(),
    {
        Helper { fields: Vec::new() }
    }

    /// Offers `value` under `name`; a value registered before under the name is replaced.
    pub fn register<T: ConvertLangValue>(&mut self, name: &str, value: T)
        ensures
            final(self)@ == old(self)@.insert(name@, T::lang_value_of(value)),
    {
        let v = <T as ConvertLangValue>::from(value);
        let ghost before = self.fields@;
        self.fields.push((String::from_str(name), v));
        proof {
            assert(self.fields@.drop_last() == before);
        }
    }

    /// The value offered under `name`, if there is one.
    pub fn get(&self, name: &String) -> (r: Option<&LangValue>)
        ensures
            match r {
                Some(v) => self@.contains_key(name@) && v@ == self@[name@],
                None => !self@.contains_key(name@),
            },
    {
        proof {
            lemma_helper_view(self.fields@);
        }
        named_get(&self.fields, name)
    }
}

/// The helpers of the kinds of values: a later registration for a kind replaces an earlier one.
pub struct HelperRegistry {
    pub map: Vec<(LangValueDiscriminant, Helper)>,
}

/// The index of the helper registered last for kind `d`.
pub open spec fn registry_index(s: Seq<(LangValueDiscriminant, Helper)>, d: LangValueDiscriminant) -> Option<int>
    decreases s.len(),
{
    if s.len() == 0 {
        None
    } else if s.last().0 == d {
        Some(s.len() - 1)
    } else {
        registry_index(s.drop_last(), d)
    }
}

proof fn lemma_registry_index_bound(s: Seq<(LangValueDiscriminant, Helper)>, d: LangValueDiscriminant)
    ensures
        registry_index(s, d) matches Some(i) ==> 0 <= i < s.len(),
    decreases s.len(),
{
    if s.len() > 0 {
        lemma_registry_index_bound(s.drop_last(), d);
    }
}

impl HelperRegistry {
    /// The helper registered for kind `d`, if there is one.
    pub open spec fn helper_of(&self, d: LangValueDiscriminant) -> Option<Helper> {
        match registry_index(self.map@, d) {
            Some(i) => Some(self.map@[i].1),
            None => None,
        }
    }

    /// A registry without helpers.
    pub fn new() -> (r: HelperRegistry)
        ensures
            forall|d: LangValueDiscriminant| #[trigger] r.helper_of(d) is None,
    {
        HelperRegistry { map: Vec::new() }
    }

    /// Registers `helper` for the values of kind `discriminant`.
    pub fn register_helper(&mut self, discriminant: LangValueDiscriminant, helper: Helper)
        ensures
            final(self).helper_of(discriminant) == Some(helper),
            forall|d: LangValueDiscriminant| d != discriminant ==> #[trigger] final(self).helper_of(d) == old(self).helper_of(d),
    {
        let ghost before = self.map@;
        self.map.push((discriminant, helper));
        proof {
            assert(self.map@.drop_last() == before);
            assert forall|d: LangValueDiscriminant| d != discriminant implies #[trigger] self.helper_of(d) == old(self).helper_of(d) by {
                assert(registry_index(self.map@, d) == registry_index(before, d));
                lemma_registry_index_bound(before, d);
                if let Some(i) = registry_index(before, d) {
                    assert(self.map@[i] == before[i]);
                }
            }
        }
    }

    /// The helper of the values of kind `discriminant`, if there is one.
    pub fn get_helper_from_discriminant(&self, discriminant: LangValueDiscriminant) -> (r: Option<&Helper>)
        ensures
            match r {
                Some(h) => self.helper_of(discriminant) == Some(*h),
                None => self.helper_of(discriminant) is None,
            },
    {
        let mut i = self.map.len();
        proof {
            assert(self.map@.take(i as int) =~= self.map@);
        }
        while i > 0
            invariant
                i <= self.map@.len(),
                registry_index(self.map@, discriminant) == registry_index(self.map@.take(i as int), discriminant),
            decreases i,
        {
            let k = i - 1;
            proof {
                let t = self.map@.take(i as int);
                assert(t.last() == self.map@[k as int]);
                assert(t.drop_last() == self.map@.take(k as int));
            }
            if self.map[k].0 == discriminant {
                return Some(&self.map[k].1);
            }
            i = k;
        }
        proof {
            assert(self.map@.take(0) =~= Seq::<(LangValueDiscriminant, Helper)>::empty());
        }
        None
    }

    /// The helper of the kind of `value`, if there is one.
    pub fn get_helper(&self, value: &LangValue) -> (r: Option<&Helper>)
        ensures
            match r {
                Some(h) => self.helper_of(discriminant_spec(*value)) == Some(*h),
                None => self.helper_of(discriminant_spec(*value)) is None,
            },
    {
        self.get_helper_from_discriminant(value.discriminant())
    }
}

} // verus!
