use vstd::prelude::*;
use crate::module::{find_last_named, last_named};

verus! {

broadcast use vstd::std_specs::vec::axiom_spec_len;

/// A list of named entries read as a map: a later entry of a name replaces an earlier one.
pub open spec fn named_map<T>(s: Seq<(String, T)>) -> Map<Seq<char>, T>
    decreases s.len(),
{
    if s.len() == 0 {
        Map::empty()
    } else {
        named_map(s.drop_last()).insert(s.last().0@, s.last().1)
    }
}

/// The names of a list of named entries, in order.
pub open spec fn names_of<T>(s: Seq<(String, T)>) -> Seq<Seq<char>> {
    s.map_values(|p: (String, T)| p.0@)
}

/// No name occurs twice.
pub open spec fn unique_names<T>(s: Seq<(String, T)>) -> bool {
    names_of(s).no_duplicates()
}

/// The last entry of a name gives its value in the map; a name without an entry is not in it.
pub proof fn lemma_named_map_lookup<T>(s: Seq<(String, T)>, k: Seq<char>)
    ensures
        last_named(s, k) matches Some(i) ==> 0 <= i < s.len() && s[i].0@ == k && named_map(s).contains_key(k) && named_map(s)[k] == s[i].1,
        last_named(s, k) is None ==> !named_map(s).contains_key(k),
    decreases s.len(),
{
    if s.len() > 0 {
        lemma_named_map_lookup(s.drop_last(), k);
    }
}

/// The names in the map are the names of the entries.
pub proof fn lemma_named_map_dom<T>(s: Seq<(String, T)>)
    ensures
        named_map(s).dom() == names_of(s).to_set(),
    decreases s.len(),
{
    if s.len() > 0 {
        lemma_named_map_dom(s.drop_last());
        assert(names_of(s.drop_last()) == names_of(s).drop_last());
        assert forall|k: Seq<char>| #[trigger] names_of(s).to_set().contains(k)
            == named_map(s).dom().contains(k) by {
            if names_of(s).to_set().contains(k) {
                let j = choose|j: int| 0 <= j < names_of(s).len() && names_of(s)[j] == k;
                if j < s.len() - 1 {
                    assert(names_of(s.drop_last())[j] == k);
                    assert(names_of(s.drop_last()).to_set().contains(k));
                }
            }
            if named_map(s).dom().contains(k) && k != s.last().0@ {
                assert(names_of(s.drop_last()).to_set().contains(k));
                let j = choose|j: int| 0 <= j < names_of(s.drop_last()).len() && names_of(s.drop_last())[j] == k;
                assert(names_of(s)[j] == k);
            }
            if k == s.last().0@ {
                assert(names_of(s)[s.len() - 1] == k);
            }
        }
        assert(named_map(s).dom() =~= names_of(s).to_set());
    }
}

/// With unique names, the map holds one name per entry.
pub proof fn lemma_named_map_len<T>(s: Seq<(String, T)>)
    requires
        unique_names(s),
    ensures
        named_map(s).dom().len() == s.len(),
{
    lemma_named_map_dom(s);
    names_of(s).unique_seq_to_set();
}

/// Replacing the value of the only entry of a name replaces the value of the name.
proof fn lemma_named_map_update<T>(s: Seq<(String, T)>, i: int, p: (String, T))
    requires
        unique_names(s),
        0 <= i < s.len(),
        s[i].0@ == p.0@,
    ensures
        named_map(s.update(i, p)) == named_map(s).insert(p.0@, p.1),
        unique_names(s.update(i, p)),
    decreases s.len(),
{
    let u = s.update(i, p);
    assert(names_of(u) =~= names_of(s));
    if i == s.len() - 1 {
        assert(u.drop_last() =~= s.drop_last());
        assert(named_map(u) =~= named_map(s).insert(p.0@, p.1));
    } else {
        assert(u.drop_last() =~= s.drop_last().update(i, p));
        assert(names_of(s.drop_last()) =~= names_of(s).drop_last());
        assert(unique_names(s.drop_last()));
        lemma_named_map_update(s.drop_last(), i, p);
        assert(names_of(s)[i] != names_of(s)[s.len() - 1]);
        assert(named_map(u) =~= named_map(s).insert(p.0@, p.1));
    }
}

/// Gives `name` the value `value`: the entry of the name is replaced, or one is added.
pub fn named_set<T>(v: &mut Vec<(String, T)>, name: String, value: T)
    requires
        unique_names(old(v)@),
    ensures
        unique_names(final(v)@),
        named_map(final(v)@) == named_map(old(v)@).insert(name@, value),
{
    let ghost k = name@;
    match find_last_named(v, &name) {
        Some(i) => {
            proof {
                lemma_named_map_lookup(v@, k);
                lemma_named_map_update(v@, i as int, (name, value));
            }
            v.set(i, (name, value));
        },
        None => {
            proof {
                lemma_named_map_lookup(v@, k);
                assert forall|j: int| 0 <= j < v@.len() implies #[trigger] names_of(v@)[j] != k by {
                    if names_of(v@)[j] == k {
                        lemma_last_named_some(v@, j, k);
                    }
                }
            }
            let ghost before = v@;
            v.push((name, value));
            proof {
                assert(v@.drop_last() == before);
                assert(names_of(v@) =~= names_of(before).push(k));
            }
        },
    }
}

/// A name that has an entry has a last entry.
proof fn lemma_last_named_some<T>(s: Seq<(String, T)>, j: int, k: Seq<char>)
    requires
        0 <= j < s.len(),
        s[j].0@ == k,
    ensures
        last_named(s, k) is Some,
    decreases s.len(),
{
    if s.last().0@ != k {
        lemma_last_named_some(s.drop_last(), j, k);
    }
}

/// The value of `name`, if it has one.
pub fn named_get<'a, T>(v: &'a Vec<(String, T)>, name: &String) -> (r: Option<&'a T>)
    ensures
        match r {
            Some(x) => named_map(v@).contains_key(name@) && *x == named_map(v@)[name@],
            None => !named_map(v@).contains_key(name@),
        },
{
    proof {
        lemma_named_map_lookup(v@, name@);
    }
    match find_last_named(v, name) {
        Some(i) => Some(&v[i].1),
        None => None,
    }
}

} // verus!
