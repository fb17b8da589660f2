use vstd::prelude::*;

use crate::token::{Token, TokenV};

verus! {

/// The map that a list of captures stands for: a later capture of a name
/// replaces an earlier one.
pub open spec fn captures_map(es: Seq<(String, Token)>) -> Map<Seq<char>, TokenV>
    decreases es.len(),
{
    if es.len() == 0 {
        Map::empty()
    } else {
        captures_map(es.drop_last()).insert(es.last().0@, es.last().1@)
    }
}

/// The tokens captured by name during one match. Held as a list in which the
/// last binding of a name wins: vstd specifies no lookup in a `HashMap` keyed
/// by `String`, while a list has a view that the contracts can state.
pub struct Bindings {
    entries: Vec<(String, Token)>,
}

impl View for Bindings {
    type V = Map<Seq<char>, TokenV>;

    closed spec fn view(&self) -> Map<Seq<char>, TokenV> {
        captures_map(self.entries@)
    }
}

impl Bindings {
    /// No captures.
    pub fn new() -> (r: Self)
        ensures
            r@ == Map::<Seq<char>, TokenV>::empty(),
    {
        Bindings { entries: Vec::new() }
    }

    /// Binds `name` to `token`, replacing an earlier binding of it.
    pub fn insert(&mut self, name: String, token: Token)
        ensures
            final(self)@ == old(self)@.insert(name@, token@),
    {
        let ghost before = self.entries@;
        self.entries.push((name, token));
        proof {
            assert(self.entries@.drop_last() =~= before);
        }
    }

    /// The token bound to `name`, if any.
    pub fn get(&self, name: &String) -> (r: Option<&Token>)
        ensures
            match r {
                Some(t) => self@.contains_key(name@) && self@[name@] == t@,
                None => !self@.contains_key(name@),
            },
    {
        let ghost es = self.entries@;
        let mut i: usize = self.entries.len();
        proof {
            assert(es.take(i as int) =~= es);
        }
        while i > 0
            invariant
                es == self.entries@,
                i <= es.len(),
                captures_map(es.take(i as int)).contains_key(name@) == captures_map(es).contains_key(
                    name@,
                ),
                captures_map(es.take(i as int)).contains_key(name@) ==> captures_map(
                    es.take(i as int),
                )[name@] == captures_map(es)[name@],
            decreases i,
        {
            proof {
                assert(es.take(i as int).drop_last() =~= es.take(i - 1));
                assert(es.take(i as int).last() == es[i - 1]);
            }
            if self.entries[i - 1].0 == *name {
                return Some(&self.entries[i - 1].1);
            }
            i = i - 1;
        }
        proof {
            assert(es.take(0) =~= Seq::<(String, Token)>::empty());
        }
        None
    }
}

} // verus!
