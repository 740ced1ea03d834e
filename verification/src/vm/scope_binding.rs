//! The binding table: the name-to-value mapping behind the language's
//! single, flat variable scope. A parent link exists in the data model for
//! a possible nesting extension, but resolution never follows it: one
//! global scope serves the whole program.
//!
//! Entries are kept as a journal: a binding is appended, and lookups read
//! the newest entry for a name, so the table behaves exactly like the map
//! `view` describes.

use vstd::prelude::*;

verus! {

pub struct Binding {
    parent: Option<Box<Binding>>,
    bindings: Vec<(String, u64)>,
}

/// The map an entry journal denotes: later entries shadow earlier ones.
pub open spec fn entries_map(s: Seq<(String, u64)>) -> Map<Seq<char>, u64>
    decreases s.len(),
{
    if s.len() == 0 {
        Map::empty()
    } else {
        entries_map(s.drop_last()).insert(s.last().0@, s.last().1)
    }
}

impl View for Binding {
    type V = Map<Seq<char>, u64>;

    closed spec fn view(&self) -> Map<Seq<char>, u64> {
        entries_map(self.bindings@)
    }
}

impl Binding {
    pub fn new() -> (r: Binding)
        ensures
            r@ == Map::<Seq<char>, u64>::empty(),
    {
        Binding { parent: None, bindings: Vec::new() }
    }
}

/// Binding API
impl Binding {
    pub fn set_bind(&mut self, binding_name: String, bind_value: u64)
        ensures
            final(self)@ == old(self)@.insert(binding_name@, bind_value),
    {
        let ghost n = binding_name@;
        self.bindings.push((binding_name, bind_value));
        proof {
            assert(self.bindings@.drop_last() =~= old(self).bindings@);
            assert(self@ =~= old(self)@.insert(n, bind_value));
        }
    }

    pub fn get_bind(&self, binding_name: &str) -> (r: Option<u64>)
        ensures
            r == (if self@.contains_key(binding_name@) {
                Some(self@[binding_name@])
            } else {
                None::<u64>
            }),
    {
        let mut i: usize = self.bindings.len();
        proof {
            assert(self.bindings@.subrange(0, i as int) =~= self.bindings@);
        }
        while i > 0
            invariant
                i <= self.bindings@.len(),
                entries_map(self.bindings@.subrange(0, i as int)).contains_key(binding_name@)
                    == self@.contains_key(binding_name@),
                self@.contains_key(binding_name@) ==> entries_map(
                    self.bindings@.subrange(0, i as int),
                )[binding_name@] == self@[binding_name@],
            decreases i,
        {
            i = i - 1;
            let entry = &self.bindings[i];
            proof {
                assert(self.bindings@.subrange(0, i + 1).drop_last() =~= self.bindings@.subrange(
                    0,
                    i as int,
                ));
                assert(self.bindings@.subrange(0, i + 1).last() == self.bindings@[i as int]);
                assert(entries_map(self.bindings@.subrange(0, i + 1)) == entries_map(
                    self.bindings@.subrange(0, i as int),
                ).insert(self.bindings@[i as int].0@, self.bindings@[i as int].1));
            }
            if crate::text::str_eq(entry.0.as_str(), binding_name) {
                return Some(entry.1);
            }
        }
        proof {
            assert(self.bindings@.subrange(0, 0) =~= Seq::<(String, u64)>::empty());
        }
        None
    }
}

} // verus!
