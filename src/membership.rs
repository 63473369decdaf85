//! The ordered set of channels that the bot joins on start.
use vstd::prelude::*;

verus! {

/// Holds of the entries other than `c`.
pub open spec fn differs(c: Seq<char>) -> spec_fn(Seq<char>) -> bool {
    |x: Seq<char>| x != c
}

/// `m` with every entry equal to `c` taken out, the rest in order.
pub open spec fn without(m: Seq<Seq<char>>, c: Seq<char>) -> Seq<Seq<char>> {
    m.filter(differs(c))
}

/// The membership after joining `c`: `c` moves to, or is added at, the end.
pub open spec fn after_join(m: Seq<Seq<char>>, c: Seq<char>) -> Seq<Seq<char>> {
    without(m, c).push(c)
}

/// The membership after leaving `c`.
pub open spec fn after_part(m: Seq<Seq<char>>, c: Seq<char>) -> Seq<Seq<char>> {
    without(m, c)
}

/// The entries of `channels` that differ from `channel`, in order.
pub fn remove_channel(channels: &Vec<String>, channel: &String) -> (r: Vec<String>)
    ensures
        r.deep_view() == without(channels.deep_view(), channel@),
{
    let ghost m = channels.deep_view();
    let mut r: Vec<String> = Vec::new();
    let mut i: usize = 0;
    while i < channels.len()
        invariant
            i <= channels.len(),
            m == channels.deep_view(),
            r.deep_view() == without(m.take(i as int), channel@),
        decreases channels.len() - i,
    {
        proof {
            reveal(Seq::filter);
            assert(m.take(i + 1).drop_last() =~= m.take(i as int));
            assert(m.take(i + 1).last() == channels@[i as int]@);
        }
        let ghost before = r.deep_view();
        if channels[i] != *channel {
            r.push(channels[i].clone());
            assert(r.deep_view() =~= before.push(channels@[i as int]@));
        }
        i = i + 1;
    }
    assert(m.take(i as int) =~= m);
    r
}

} // verus!
