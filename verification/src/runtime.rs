//! A small key-value store for interpreter-level variables.

use vstd::prelude::*;

verus! {

broadcast use {vstd::std_specs::vec::group_vec_axioms, vstd::seq::group_seq_axioms};

/// The map an entry list stands for: later entries shadow earlier ones.
pub open spec fn s_env_map(entries: Seq<(Seq<char>, Seq<char>)>) -> Map<Seq<char>, Seq<char>>
    decreases entries.len(),
{
    if entries.len() == 0 {
        Map::empty()
    } else {
        s_env_map(entries.drop_last()).insert(entries.last().0, entries.last().1)
    }
}

/// An interpreter-level variable store.
#[derive(Debug, PartialEq)]
pub struct Environment {
    entries: Vec<(String, String)>,
}

impl Environment {
    /// The store as a map from names to values.
    pub closed spec fn view(&self) -> Map<Seq<char>, Seq<char>> {
        s_env_map(self.entries.deep_view())
    }

    /// A fresh store, holding only a zero last-status variable.
    pub fn new() -> (r: Environment)
        ensures
            r.view() == Map::<Seq<char>, Seq<char>>::empty().insert("?"@, "0"@),
    {
        let mut e = Environment { entries: Vec::new() };
        proof {
            assert(e.entries.deep_view() =~= Seq::<(Seq<char>, Seq<char>)>::empty());
        }
        e.update(String::from_str("?"), String::from_str("0"));
        e
    }

    /// Binds `name` to `value`, shadowing any earlier binding.
    pub fn update(&mut self, name: String, value: String)
        ensures
            final(self).view() == old(self).view().insert(name@, value@),
    {
        let ghost e0 = self.entries.deep_view();
        let ghost pair = (name@, value@);
        self.entries.push((name, value));
        proof {
            assert(self.entries.deep_view() =~= e0.push(pair));
            assert(self.entries.deep_view().drop_last() =~= e0);
            assert(self.entries.deep_view().last() == pair);
        }
    }
}

} // verus!
