//! The registry: command names, without the trigger character, to commands.
use vstd::prelude::*;

use crate::command::{Command, CommandModel};

verus! {

/// Commands by name. A later registration under a name replaces an earlier.
pub struct Registry {
    pub entries: Vec<(String, Command)>,
}

impl View for Registry {
    type V = Seq<(Seq<char>, CommandModel)>;

    open spec fn view(&self) -> Seq<(Seq<char>, CommandModel)> {
        self.entries@.map_values(|e: (String, Command)| (e.0@, e.1@))
    }
}

/// The command registered last under `name`, matched exactly.
pub open spec fn find_command(r: Seq<(Seq<char>, CommandModel)>, name: Seq<char>) -> Option<
    CommandModel,
>
    decreases r.len(),
{
    if r.len() == 0 {
        None
    } else if r.last().0 == name {
        Some(r.last().1)
    } else {
        find_command(r.drop_last(), name)
    }
}

impl Registry {
    pub fn new() -> (r: Self)
        ensures
            r@ == Seq::<(Seq<char>, CommandModel)>::empty(),
    {
        let r = Registry { entries: Vec::new() };
        assert(r@ =~= Seq::<(Seq<char>, CommandModel)>::empty());
        r
    }

    /// Registers `cmd` under `name`.
    pub fn register(&mut self, name: String, cmd: Command)
        ensures
            final(self)@ == old(self)@.push((name@, cmd@)),
    {
        let ghost before = self@;
        let ghost entry = (name@, cmd@);
        self.entries.push((name, cmd));
        assert(self@ =~= before.push(entry));
    }

    /// The command registered under `name`, if any.
    pub fn get(&self, name: &String) -> (r: Option<&Command>)
        ensures
            match r {
                Some(c) => find_command(self@, name@) == Some(c@),
                None => find_command(self@, name@) is None,
            },
    {
        let mut i: usize = self.entries.len();
        assert(self@.take(i as int) =~= self@);
        while i > 0
            invariant
                i <= self.entries.len(),
                find_command(self@, name@) == find_command(self@.take(i as int), name@),
            decreases i,
        {
            assert(self@.take(i as int).drop_last() =~= self@.take(i - 1));
            if self.entries[i - 1].0 == *name {
                return Some(&self.entries[i - 1].1);
            }
            i = i - 1;
        }
        None
    }
}

} // verus!
