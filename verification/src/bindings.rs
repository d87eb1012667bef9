//! The map of bound parameter values handed, together with the query string,
//! to the external client that executes the query.

use vstd::prelude::*;

verus! {

/// `serde_json::Value` is the wire representation of bound values. The
/// library never looks inside one: values are produced by callers (or by
/// serde in the surrounding application) and carried through to the binding
/// map unchanged.
#[verifier::external_type_specification]
#[verifier::external_body]
pub struct ExValue(serde_json::Value);

/// Error raised when a value cannot be turned into its wire representation.
#[derive(Debug)]
pub struct SerializeError(pub String);

/// The bindings accumulated by `lookup` over an entry list: later entries
/// override earlier ones with the same key.
pub open spec fn assoc_map(entries: Seq<(String, serde_json::Value)>) -> Map<
    Seq<char>,
    serde_json::Value,
>
    decreases entries.len(),
{
    if entries.len() == 0 {
        Map::empty()
    } else {
        assoc_map(entries.drop_last()).insert(entries.last().0@, entries.last().1)
    }
}

/// The value bound to `key`, if any: the last entry with that key wins.
pub open spec fn assoc_lookup(
    entries: Seq<(String, serde_json::Value)>,
    key: Seq<char>,
) -> Option<serde_json::Value>
    decreases entries.len(),
{
    if entries.len() == 0 {
        Option::None
    } else if entries.last().0@ == key {
        Option::Some(entries.last().1)
    } else {
        assoc_lookup(entries.drop_last(), key)
    }
}

/// `assoc_lookup` agrees with `assoc_map`.
pub proof fn lemma_assoc_lookup(entries: Seq<(String, serde_json::Value)>, key: Seq<char>)
    ensures
        match assoc_lookup(entries, key) {
            Option::Some(v) => assoc_map(entries).contains_key(key) && assoc_map(entries)[key]
                == v,
            Option::None => !assoc_map(entries).contains_key(key),
        },
    decreases entries.len(),
{
    if entries.len() > 0 {
        lemma_assoc_lookup(entries.drop_last(), key);
    }
}

/// Mapping from parameter name to its serialized value; keys unique, handed
/// to the database client as a lookup structure.
pub struct BindingMap {
    pub entries: Vec<(String, serde_json::Value)>,
}

impl BindingMap {
    /// The bindings as a map from parameter name to value.
    pub open spec fn view(&self) -> Map<Seq<char>, serde_json::Value> {
        assoc_map(self.entries@)
    }

    pub fn new() -> (r: Self)
        ensures
            r@ == Map::<Seq<char>, serde_json::Value>::empty(),
            r.entries@.len() == 0,
    {
        BindingMap { entries: Vec::new() }
    }

    /// Binds `key` to `value`, overriding any earlier binding of the same
    /// name.
    pub fn insert(&mut self, key: String, value: serde_json::Value)
        ensures
            final(self)@ == old(self)@.insert(key@, value),
    {
        self.entries.push((key, value));
        proof {
            assert(self.entries@.drop_last() =~= old(self).entries@);
        }
    }

    /// The value bound to `key`, if any.
    pub fn get(&self, key: &str) -> (r: Option<&serde_json::Value>)
        ensures
            match r {
                Option::Some(v) => self@.contains_key(key@) && *v == self@[key@],
                Option::None => !self@.contains_key(key@),
            },
    {
        let mut j = self.entries.len();
        proof {
            assert(self.entries@.take(self.entries@.len() as int) =~= self.entries@);
        }
        while j > 0
            invariant
                j <= self.entries@.len(),
                assoc_lookup(self.entries@, key@) == assoc_lookup(
                    self.entries@.take(j as int),
                    key@,
                ),
            decreases j,
        {
            j = j - 1;
            if crate::text::str_eq(self.entries[j].0.as_str(), key) {
                proof {
                    let pre = self.entries@.take(j as int + 1);
                    assert(pre.last() == self.entries@[j as int]);
                    lemma_assoc_lookup(self.entries@, key@);
                }
                return Some(&self.entries[j].1);
            }
            proof {
                let pre = self.entries@.take(j as int + 1);
                assert(pre.last() == self.entries@[j as int]);
                assert(pre.drop_last() =~= self.entries@.take(j as int));
            }
        }
        proof {
            assert(self.entries@.take(0) =~= Seq::<(String, serde_json::Value)>::empty());
            lemma_assoc_lookup(self.entries@, key@);
        }
        None
    }

    /// Whether no parameter is bound.
    pub fn is_empty(&self) -> (r: bool)
        ensures
            r == (self@ == Map::<Seq<char>, serde_json::Value>::empty()),
    {
        proof {
            if self.entries@.len() > 0 {
                assert(self@.contains_key(self.entries@.last().0@));
                assert(self@.dom() != Set::<Seq<char>>::empty());
                assert(self@ != Map::<Seq<char>, serde_json::Value>::empty()) by {
                    if self@ == Map::<Seq<char>, serde_json::Value>::empty() {
                        assert(!Map::<Seq<char>, serde_json::Value>::empty().contains_key(
                            self.entries@.last().0@,
                        ));
                    }
                }
            } else {
                assert(self.entries@.len() == 0);
                assert(self@ =~= Map::<Seq<char>, serde_json::Value>::empty());
            }
        }
        self.entries.len() == 0
    }

    /// How many entries were inserted (an earlier overridden binding still
    /// counts one entry).
    pub fn entry_count(&self) -> (r: usize)
        ensures
            r == self.entries@.len(),
    {
        self.entries.len()
    }
}

} // verus!
