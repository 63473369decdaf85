//! Binding the words of a command's tail to its declared arguments.
use vstd::prelude::*;

use crate::text::{join_from, join_words, split_words, words_of};

verus! {

/// One declared positional argument of a command.
#[derive(Debug, PartialEq, Eq)]
pub struct CommandArg {
    pub required: bool,
    pub name: String,
}

/// What a declared argument is: its name and whether it must be given.
pub struct ArgModel {
    pub required: bool,
    pub name: Seq<char>,
}

impl View for CommandArg {
    type V = ArgModel;

    open spec fn view(&self) -> ArgModel {
        ArgModel { required: self.required, name: self.name@ }
    }
}

/// The declared arguments as a sequence of models.
pub open spec fn args_model(args: Seq<CommandArg>) -> Seq<ArgModel> {
    args.map_values(|a: CommandArg| a@)
}

/// The arguments that a tail bound, as (name, value) pairs in declared order.
#[derive(Debug, PartialEq, Eq)]
pub struct Bindings {
    pub entries: Vec<(String, String)>,
}

impl View for Bindings {
    type V = Seq<(Seq<char>, Seq<char>)>;

    open spec fn view(&self) -> Seq<(Seq<char>, Seq<char>)> {
        self.entries@.map_values(|e: (String, String)| (e.0@, e.1@))
    }
}

/// The value bound to `name`: that of its last pair, as a map that each pair
/// was inserted into in turn would hold it.
pub open spec fn lookup(b: Seq<(Seq<char>, Seq<char>)>, name: Seq<char>) -> Option<Seq<char>>
    decreases b.len(),
{
    if b.len() == 0 {
        None
    } else if b.last().0 == name {
        Some(b.last().1)
    } else {
        lookup(b.drop_last(), name)
    }
}

/// Why a tail could not be bound.
#[derive(Debug, PartialEq, Eq)]
pub enum BindError {
    /// The named required argument had no word left for it.
    MissingArgument(String),
}

impl View for BindError {
    type V = Seq<char>;

    open spec fn view(&self) -> Seq<char> {
        match self {
            BindError::MissingArgument(name) => name@,
        }
    }
}

/// Argument `i` is required and, with `nwords` words, gets none.
pub open spec fn unfilled(args: Seq<ArgModel>, nwords: int, i: int) -> bool {
    nwords <= i < args.len() && args[i].required
}

/// The first required argument that gets no word.
pub open spec fn first_unfilled(args: Seq<ArgModel>, nwords: int) -> int {
    choose|i: int|
        unfilled(args, nwords, i) && forall|j: int| #[trigger]
            unfilled(args, nwords, j) ==> i <= j
}

/// The value bound to argument `i`: its word, or for the last declared
/// argument that word followed by all the words left over.
pub open spec fn bound_value(args: Seq<ArgModel>, words: Seq<Seq<char>>, i: int) -> Seq<char> {
    if i == args.len() - 1 {
        join_words(words.subrange(i, words.len() as int))
    } else {
        words[i]
    }
}

/// Binding `words` to `args`: the name of the first required argument left
/// without a word, or else a pair for each argument that got a word.
pub open spec fn bind_words(args: Seq<ArgModel>, words: Seq<Seq<char>>) -> Result<
    Seq<(Seq<char>, Seq<char>)>,
    Seq<char>,
> {
    if exists|i: int| unfilled(args, words.len() as int, i) {
        Err(args[first_unfilled(args, words.len() as int)].name)
    } else {
        let n = if args.len() < words.len() {
            args.len()
        } else {
            words.len()
        };
        Ok(Seq::new(n, |i: int| (args[i].name, bound_value(args, words, i))))
    }
}

/// Binding a raw tail: its whitespace-separated words are bound.
pub open spec fn bind_spec(args: Seq<ArgModel>, tail: Seq<char>) -> Result<
    Seq<(Seq<char>, Seq<char>)>,
    Seq<char>,
> {
    bind_words(args, words_of(tail))
}

/// Whether a result of `bind` is the one that `bind_spec` gives.
pub open spec fn bind_result_is(
    r: Result<Bindings, BindError>,
    expected: Result<Seq<(Seq<char>, Seq<char>)>, Seq<char>>,
) -> bool {
    match r {
        Ok(b) => expected == Ok::<Seq<(Seq<char>, Seq<char>)>, Seq<char>>(b@),
        Err(e) => expected == Err::<Seq<(Seq<char>, Seq<char>)>, Seq<char>>(e@),
    }
}

/// Binds the whitespace-separated words of `input` to `args` in declared
/// order, stopping at the first required argument that no word is left for;
/// the last declared argument, when it has a word, also takes the words left
/// over, each after one space.
#[verifier::rlimit(20)]
pub fn bind(args: &Vec<CommandArg>, input: &str) -> (r: Result<Bindings, BindError>)
    ensures
        bind_result_is(r, bind_spec(args_model(args@), input@)),
{
    let words = split_words(input);
    let ghost am = args_model(args@);
    let ghost wv = words.deep_view();
    let n = args.len();
    let mut entries: Vec<(String, String)> = Vec::new();
    let mut i: usize = 0;
    while i < n
        invariant
            n == args.len(),
            i <= n,
            am == args_model(args@),
            wv == words.deep_view(),
            wv == words_of(input@),
            forall|j: int| 0 <= j < i ==> !#[trigger] unfilled(am, wv.len() as int, j),
            entries.len() == if i < words.len() {
                i as int
            } else {
                words.len() as int
            },
            forall|j: int|
                0 <= j < entries.len() ==> (#[trigger] entries@[j]).0@ == am[j].name
                    && entries@[j].1@ == wv[j],
        decreases n - i,
    {
        assert(am[i as int] == args@[i as int]@);
        if i < words.len() {
            assert(wv[i as int] == words@[i as int]@);
            let ghost old_entries = entries@;
            entries.push((args[i].name.clone(), words[i].clone()));
            assert(entries@.last().0@ == am[i as int].name);
            assert(entries@.last().1@ == wv[i as int]);
            assert(entries@.drop_last() == old_entries);
            assert forall|j: int| 0 <= j < entries.len() implies (#[trigger] entries@[j]).0@ == am[j].name
                    && entries@[j].1@ == wv[j] by {
                if j < old_entries.len() {
                    assert(entries@[j] == old_entries[j]);
                }
            }
        } else if args[i].required {
            proof {
                assert(unfilled(am, wv.len() as int, i as int));
                let f = first_unfilled(am, wv.len() as int);
                assert(f == i);
                assert(bind_spec(am, input@) == Err::<Seq<(Seq<char>, Seq<char>)>, Seq<char>>(
                    am[f].name,
                ));
            }
            let e = BindError::MissingArgument(args[i].name.clone());
            assert(e@ == am[i as int].name);
            return Err(e);
        }
        i = i + 1;
    }
    assert(!exists|j: int| unfilled(am, wv.len() as int, j));
    if n > 0 && n < words.len() {
        let value = join_from(&words, n - 1);
        assert(am[n - 1] == args@[n - 1]@);
        let ghost before = entries@;
        entries.set(n - 1, (args[n - 1].name.clone(), value));
        assert forall|k: int| 0 <= k < n implies (#[trigger] entries@[k]).0@ == am[k].name
            && entries@[k].1@ == bound_value(am, wv, k) by {
            assert(am.len() == n);
            if k < n - 1 {
                assert(entries@[k] == before[k]);
                assert(before[k].1@ == wv[k]);
            }
        }
    }
    proof {
        let nb = entries@.len();
        assert forall|k: int| 0 <= k < nb implies (#[trigger] entries@[k]).0@ == am[k].name
            && entries@[k].1@ == bound_value(am, wv, k) by {
            assert(am.len() == n);
            if !(n > 0 && n < wv.len()) && k == n - 1 {
                assert(wv.subrange(k, wv.len() as int) =~= seq![wv[k]]);
            }
        }
        let b = Bindings { entries }@;
        let expected = Seq::new(nb, |k: int| (am[k].name, bound_value(am, wv, k)));
        assert(b =~= expected);
    }
    Ok(Bindings { entries })
}

impl Bindings {
    /// The value bound to `name`, if any.
    pub fn get(&self, name: &str) -> (r: Option<&String>)
        ensures
            match r {
                Some(v) => lookup(self@, name@) == Some(v@),
                None => lookup(self@, name@) is None,
            },
    {
        let key = String::from_str(name);
        let mut i: usize = self.entries.len();
        assert(self@.take(i as int) =~= self@);
        while i > 0
            invariant
                i <= self.entries.len(),
                key@ == name@,
                lookup(self@, name@) == lookup(self@.take(i as int), name@),
            decreases i,
        {
            let ghost pre = self@.take(i as int);
            assert(pre.drop_last() =~= self@.take(i - 1));
            if self.entries[i - 1].0 == key {
                return Some(&self.entries[i - 1].1);
            }
            i = i - 1;
        }
        None
    }
}

} // verus!
