//! The variable table: names bound to numeric payloads, last write wins.

use vstd::prelude::*;

verus! {

/// The map described by a sequence of bindings, later bindings
/// overriding earlier ones.
pub open spec fn map_of(entries: Seq<(String, u64)>) -> Map<Seq<char>, u64>
    decreases entries.len(),
{
    if entries.len() == 0 {
        Map::empty()
    } else {
        map_of(entries.drop_last()).insert(entries.last().0@, entries.last().1)
    }
}

/// A table of variable bindings. Its view is the map from names to
/// values in which the most recent binding of a name wins.
pub struct VarTable {
    entries: Vec<(String, u64)>,
}

impl View for VarTable {
    type V = Map<Seq<char>, u64>;

    closed spec fn view(&self) -> Map<Seq<char>, u64> {
        map_of(self.entries@)
    }
}

impl VarTable {
    /// An empty table.
    pub fn new() -> (t: VarTable)
        ensures
            t@ == Map::<Seq<char>, u64>::empty(),
    {
        VarTable { entries: Vec::new() }
    }

    /// Bind `name` to `value`, replacing any earlier binding.
    pub fn set(&mut self, name: String, value: u64)
        ensures
            final(self)@ == old(self)@.insert(name@, value),
    {
        let ghost prev = self.entries@;
        self.entries.push((name, value));
        proof {
            assert(self.entries@.drop_last() =~= prev);
        }
    }

    /// The value bound to `name`, if any.
    pub fn get(&self, name: &String) -> (r: Option<u64>)
        ensures
            r == if self@.contains_key(name@) {
                Some(self@[name@])
            } else {
                None::<u64>
            },
    {
        let mut j = self.entries.len();
        proof {
            assert(self.entries@.subrange(0, self.entries@.len() as int) =~= self.entries@);
        }
        while j > 0
            invariant
                j <= self.entries@.len(),
                map_of(self.entries@).contains_key(name@) == map_of(
                    self.entries@.subrange(0, j as int),
                ).contains_key(name@),
                map_of(self.entries@).contains_key(name@) ==> map_of(self.entries@)[name@]
                    == map_of(self.entries@.subrange(0, j as int))[name@],
            decreases j,
        {
            j = j - 1;
            let entry = &self.entries[j];
            proof {
                assert(self.entries@.subrange(0, j + 1).drop_last() =~= self.entries@.subrange(
                    0,
                    j as int,
                ));
                assert(self.entries@.subrange(0, j + 1).last() == self.entries@[j as int]);
            }
            if entry.0.eq(name) {
                return Some(entry.1);
            }
        }
        proof {
            assert(self.entries@.subrange(0, 0) =~= Seq::<(String, u64)>::empty());
        }
        None
    }
}

} // verus!
