//! Laws of binding, membership and the owner gate, proved over the models
//! that the functions' contracts use.
use vstd::prelude::*;

use crate::action::{is_save, ActionModel};
use crate::binder::{bind_spec, first_unfilled, unfilled, ArgModel};
use crate::command::{allowed, denied_text, execute_spec, CommandModel};
use crate::handlers::{channel_arg, join_outcome, part_outcome, valid_channel};
use crate::membership::{after_join, after_part, differs, without};
use crate::text::{is_ws, join_words, words_of};

verus! {

/// How many of `args` are required.
pub open spec fn required_count(args: Seq<ArgModel>) -> nat
    decreases args.len(),
{
    if args.len() == 0 {
        0
    } else {
        required_count(args.drop_last()) + if args.last().required {
            1nat
        } else {
            0nat
        }
    }
}

/// With no required argument at index `m` or later, at most `m` are
/// required.
proof fn required_count_bound(args: Seq<ArgModel>, m: int)
    requires
        0 <= m,
        forall|i: int| m <= i < args.len() ==> !(#[trigger] args[i]).required,
    ensures
        required_count(args) <= m,
        required_count(args) <= args.len(),
    decreases args.len(),
{
    if args.len() > 0 {
        let d = args.drop_last();
        assert forall|i: int| m <= i < d.len() implies !(#[trigger] d[i]).required by {
            assert(d[i] == args[i]);
        }
        required_count_bound(d, m);
    }
}

/// Scans from `k` for the first unfilled argument.
proof fn least_unfilled_from(args: Seq<ArgModel>, nwords: int, k: int) -> (f: int)
    requires
        nwords <= k,
        exists|i: int| k <= i && unfilled(args, nwords, i),
        forall|j: int| nwords <= j < k ==> !#[trigger] unfilled(args, nwords, j),
    ensures
        unfilled(args, nwords, f),
        forall|j: int| #[trigger] unfilled(args, nwords, j) ==> f <= j,
    decreases args.len() - k,
{
    if unfilled(args, nwords, k) {
        k
    } else {
        let i = choose|i: int| k <= i && unfilled(args, nwords, i);
        assert(k < i);
        least_unfilled_from(args, nwords, k + 1)
    }
}

/// Where some required argument gets no word, `first_unfilled` is the first
/// of them.
pub proof fn first_unfilled_is_least(args: Seq<ArgModel>, nwords: int)
    requires
        0 <= nwords,
        exists|i: int| unfilled(args, nwords, i),
    ensures
        unfilled(args, nwords, first_unfilled(args, nwords)),
        forall|j: int| #[trigger] unfilled(args, nwords, j) ==> first_unfilled(args, nwords) <= j,
{
    let f = least_unfilled_from(args, nwords, nwords);
    assert(unfilled(args, nwords, f) && forall|j: int| #[trigger]
        unfilled(args, nwords, j) ==> f <= j);
}

/// A word: non-empty, with no whitespace.
pub open spec fn is_word(w: Seq<char>) -> bool {
    w.len() > 0 && forall|k: int| 0 <= k < w.len() ==> !is_ws(#[trigger] w[k])
}

/// Every piece that `words_of` gives is a word.
proof fn words_are_words(s: Seq<char>)
    ensures
        forall|i: int| 0 <= i < words_of(s).len() ==> is_word(#[trigger] words_of(s)[i]),
        s.len() > 0 && !is_ws(s.last()) ==> words_of(s).len() > 0,
    decreases s.len(),
{
    if s.len() > 0 {
        let p = s.drop_last();
        words_are_words(p);
        let c = s.last();
        let w = words_of(p);
        if !is_ws(c) && p.len() > 0 && !is_ws(p.last()) {
            assert(w.len() > 0);
            let lw = w.last().push(c);
            assert(is_word(w[w.len() - 1]));
            assert(is_word(lw)) by {
                assert forall|k: int| 0 <= k < lw.len() implies !is_ws(#[trigger] lw[k]) by {
                    if k < lw.len() - 1 {
                        assert(lw[k] == w[w.len() - 1][k]);
                    }
                }
            }
        } else if !is_ws(c) {
            assert(is_word(seq![c]));
        }
    }
}

/// A word that follows whitespace, or starts the text, is a word of its own.
proof fn words_of_append_word(x: Seq<char>, w: Seq<char>)
    requires
        x.len() == 0 || is_ws(x.last()),
        is_word(w),
    ensures
        words_of(x + w) == words_of(x).push(w),
    decreases w.len(),
{
    let d = w.drop_last();
    assert((x + w).drop_last() =~= x + d);
    assert((x + w).last() == w[w.len() - 1]);
    if d.len() == 0 {
        assert(x + d =~= x);
        assert(seq![w[0]] =~= w);
    } else {
        assert(is_word(d)) by {
            assert forall|k: int| 0 <= k < d.len() implies !is_ws(#[trigger] d[k]) by {
                assert(d[k] == w[k]);
            }
        }
        words_of_append_word(x, d);
        assert((x + d).last() == w[w.len() - 2]);
        assert(d.push(w.last()) =~= w);
        assert(words_of(x).push(d).update(words_of(x).len() as int, w) =~= words_of(x).push(w));
    }
}

/// Joining words with single spaces and splitting again gives the words back.
pub proof fn split_join_words(ws: Seq<Seq<char>>)
    requires
        forall|i: int| 0 <= i < ws.len() ==> is_word(#[trigger] ws[i]),
    ensures
        words_of(join_words(ws)) == ws,
    decreases ws.len(),
{
    if ws.len() == 1 {
        words_of_append_word(Seq::empty(), ws[0]);
        assert(Seq::<char>::empty() + ws[0] =~= ws[0]);
        assert(Seq::<Seq<char>>::empty().push(ws[0]) =~= ws);
    } else if ws.len() > 1 {
        let d = ws.drop_last();
        split_join_words(d);
        let x = join_words(d) + seq![' '];
        assert(x.drop_last() =~= join_words(d));
        assert(words_of(x) == words_of(join_words(d)));
        words_of_append_word(x, ws.last());
        assert(d.push(ws.last()) =~= ws);
    } else {
        assert(ws =~= Seq::<Seq<char>>::empty());
    }
}

/// The tail that a command line hands on splits into exactly the words
/// after the command name.
pub proof fn tail_keeps_words(text: Seq<char>)
    requires
        words_of(text).len() > 0,
    ensures
        words_of(join_words(words_of(text).drop_first())) == words_of(text).drop_first(),
{
    words_are_words(text);
    let rest = words_of(text).drop_first();
    assert forall|i: int| 0 <= i < rest.len() implies is_word(#[trigger] rest[i]) by {
        assert(rest[i] == words_of(text)[i + 1]);
    }
    split_join_words(rest);
}

/// Binding an empty tail succeeds exactly when no declared argument is
/// required.
pub proof fn bind_empty_tail(args: Seq<ArgModel>)
    ensures
        bind_spec(args, Seq::empty()) is Ok <==> forall|i: int|
            0 <= i < args.len() ==> !(#[trigger] args[i]).required,
{
    assert(words_of(Seq::<char>::empty()).len() == 0);
    if !(forall|i: int| 0 <= i < args.len() ==> !(#[trigger] args[i]).required) {
        let i = choose|i: int| 0 <= i < args.len() && (#[trigger] args[i]).required;
        assert(unfilled(args, 0, i));
    }
}

/// With fewer words than required arguments, binding fails and names the
/// first required argument that no word is left for: every required
/// argument before it got a word.
pub proof fn bind_too_few_words(args: Seq<ArgModel>, tail: Seq<char>)
    requires
        words_of(tail).len() < required_count(args),
    ensures
        ({
            let n = words_of(tail).len() as int;
            let k = first_unfilled(args, n);
            &&& bind_spec(args, tail) == Err::<Seq<(Seq<char>, Seq<char>)>, Seq<char>>(
                args[k].name,
            )
            &&& n <= k < args.len()
            &&& args[k].required
            &&& forall|j: int| n <= j < k ==> !(#[trigger] args[j]).required
        }),
{
    let n = words_of(tail).len() as int;
    if !exists|i: int| unfilled(args, n, i) {
        assert forall|i: int| n <= i < args.len() implies !(#[trigger] args[i]).required by {
            assert(!unfilled(args, n, i));
        }
        required_count_bound(args, n);
    }
    first_unfilled_is_least(args, n);
    let k = first_unfilled(args, n);
    assert forall|j: int| n <= j < k implies !(#[trigger] args[j]).required by {
        if args[j].required {
            assert(unfilled(args, n, j));
        }
    }
}

/// Filtering out `c` keeps a sequence that does not hold `c`.
proof fn without_absent(m: Seq<Seq<char>>, c: Seq<char>)
    requires
        !m.contains(c),
    ensures
        without(m, c) == m,
    decreases m.len(),
{
    reveal(Seq::filter);
    if m.len() > 0 {
        let d = m.drop_last();
        assert(!d.contains(c)) by {
            if d.contains(c) {
                let i = choose|i: int| 0 <= i < d.len() && d[i] == c;
                assert(m[i] == c);
            }
        }
        without_absent(d, c);
        assert(m.last() != c) by {
            assert(m[m.len() - 1] == m.last());
        }
        assert(d.push(m.last()) =~= m);
    }
}

/// Filtering out `c` leaves no `c`.
proof fn without_lacks(m: Seq<Seq<char>>, c: Seq<char>)
    ensures
        !without(m, c).contains(c),
{
    broadcast use Seq::lemma_filter_pred;

    if without(m, c).contains(c) {
        let i = choose|i: int| 0 <= i < without(m, c).len() && without(m, c)[i] == c;
        m.lemma_filter_pred(differs(c), i);
    }
}

/// Appending a value that is not there keeps a sequence free of repeats.
proof fn push_fresh(m: Seq<Seq<char>>, c: Seq<char>)
    requires
        m.no_duplicates(),
        !m.contains(c),
    ensures
        m.push(c).no_duplicates(),
{
    let p = m.push(c);
    assert forall|i: int, j: int| 0 <= i < p.len() && 0 <= j < p.len() && i != j implies p[i]
        != p[j] by {
        if i == m.len() {
            assert(m[j] == p[j]);
        } else if j == m.len() {
            assert(m[i] == p[i]);
        } else {
            assert(m[i] == p[i] && m[j] == p[j]);
        }
    }
}

/// Filtering out `c` keeps a sequence free of repeats.
proof fn without_no_duplicates(m: Seq<Seq<char>>, c: Seq<char>)
    requires
        m.no_duplicates(),
    ensures
        without(m, c).no_duplicates(),
    decreases m.len(),
{
    reveal(Seq::filter);
    if m.len() > 0 {
        let d = m.drop_last();
        assert(d.no_duplicates()) by {
            assert forall|i: int, j: int| 0 <= i < d.len() && 0 <= j < d.len() && i != j implies d[i]
                != d[j] by {
                assert(d[i] == m[i] && d[j] == m[j]);
            }
        }
        without_no_duplicates(d, c);
        if m.last() != c {
            assert(!without(d, c).contains(m.last())) by {
                if without(d, c).contains(m.last()) {
                    d.lemma_filter_contains_rev(differs(c), m.last());
                    let i = choose|i: int| 0 <= i < d.len() && d[i] == m.last();
                    assert(m[i] == m[m.len() - 1]);
                }
            }
            push_fresh(without(d, c), m.last());
        }
    }
}

/// The membership stays free of repeats through joins and parts.
pub proof fn membership_stays_a_set(channels: Seq<Seq<char>>, c: Seq<char>)
    requires
        channels.no_duplicates(),
    ensures
        after_join(channels, c).no_duplicates(),
        after_part(channels, c).no_duplicates(),
{
    without_no_duplicates(channels, c);
    without_lacks(channels, c);
    push_fresh(without(channels, c), c);
}

/// Joining a channel twice leaves the membership as the first join left
/// it: the channel once, at the end; the second join persists that same
/// membership.
pub proof fn join_twice(
    usage: Seq<char>,
    b: Seq<(Seq<char>, Seq<char>)>,
    target: Seq<char>,
    sender: Seq<char>,
    channels: Seq<Seq<char>>,
)
    requires
        valid_channel(channel_arg(b, target)),
        channel_arg(b, target) != sender,
    ensures
        ({
            let c = channel_arg(b, target);
            let first = join_outcome(usage, b, target, sender, channels);
            let second = join_outcome(usage, b, target, sender, first.1);
            &&& second.1 == first.1
            &&& second.1.len() > 0
            &&& second.1.last() == c
            &&& forall|i: int| 0 <= i < second.1.len() - 1 ==> second.1[i] != c
            &&& second.0 == seq![
                ActionModel::Join { channel: c },
                ActionModel::SaveChannels { channels: second.1 },
            ]
        }),
{
    let c = channel_arg(b, target);
    let m1 = after_join(channels, c);
    let kept = without(channels, c);
    without_lacks(channels, c);
    reveal(Seq::filter);
    assert(m1.drop_last() =~= kept);
    assert(without(m1, c) == without(kept, c));
    without_absent(kept, c);
    assert forall|i: int| 0 <= i < m1.len() - 1 implies m1[i] != c by {
        assert(m1[i] == kept[i]);
    }
}

/// On a membership without repeats, leaving a member channel removes exactly
/// its one entry and persists the result; leaving any other channel changes
/// nothing and persists nothing.
pub proof fn part_removes_one(
    usage: Seq<char>,
    b: Seq<(Seq<char>, Seq<char>)>,
    target: Seq<char>,
    sender: Seq<char>,
    channels: Seq<Seq<char>>,
)
    requires
        channels.no_duplicates(),
        valid_channel(channel_arg(b, target)),
        channel_arg(b, target) != sender,
    ensures
        ({
            let c = channel_arg(b, target);
            let out = part_outcome(usage, b, target, sender, channels);
            &&& channels.contains(c) ==> exists|k: int|
                0 <= k < channels.len() && channels[k] == c && out.1 == channels.remove(k)
                    && out.0 == seq![
                    ActionModel::SaveChannels { channels: out.1 },
                    ActionModel::Part { channel: c },
                ]
            &&& !channels.contains(c) ==> out.1 == channels && out.0 == seq![
                ActionModel::Part { channel: c },
            ] && forall|i: int| 0 <= i < out.0.len() ==> !is_save(#[trigger] out.0[i])
        }),
{
    let c = channel_arg(b, target);
    if channels.contains(c) {
        let k = choose|k: int| 0 <= k < channels.len() && channels[k] == c;
        let pre = channels.take(k);
        let post = channels.skip(k + 1);
        assert(channels =~= pre + seq![c] + post);
        assert(!pre.contains(c)) by {
            if pre.contains(c) {
                let i = choose|i: int| 0 <= i < pre.len() && pre[i] == c;
                assert(channels[i] == c);
            }
        }
        assert(!post.contains(c)) by {
            if post.contains(c) {
                let i = choose|i: int| 0 <= i < post.len() && post[i] == c;
                assert(channels[k + 1 + i] == c);
            }
        }
        without_absent(pre, c);
        without_absent(post, c);
        let pred = differs(c);
        Seq::filter_distributes_over_add(pre + seq![c], post, pred);
        Seq::filter_distributes_over_add(pre, seq![c], pred);
        reveal(Seq::filter);
        assert(seq![c].drop_last() =~= Seq::<Seq<char>>::empty());
        assert(Seq::<Seq<char>>::empty().filter(pred) =~= Seq::<Seq<char>>::empty());
        assert(seq![c].filter(pred) =~= Seq::<Seq<char>>::empty());
        assert((pre + seq![c]).filter(pred) =~= pre);
        assert(without(channels, c) =~= channels.remove(k));
    }
}

/// An owner-only command run by a sender who is no owner yields one notice
/// to that sender and nothing else: no handler runs and the membership
/// stays.
pub proof fn non_owner_denied(
    cmd: CommandModel,
    tail: Seq<char>,
    owners: Seq<Seq<char>>,
    nickname: Seq<char>,
    channels: Seq<Seq<char>>,
    target: Seq<char>,
    sender: Seq<char>,
)
    requires
        cmd.owner_only,
        !owners.contains(sender),
    ensures
        execute_spec(cmd, tail, owners, nickname, channels, target, sender) == (
            seq![ActionModel::Notice { target: sender, text: denied_text() }],
            channels,
        ),
{
    assert(!allowed(cmd.owner_only, owners, sender));
}

/// No command ever has the bot kick itself: whatever the command, tail,
/// sender and target, no kick that it asks for names the bot's nickname.
pub proof fn bot_never_kicks_itself(
    cmd: CommandModel,
    tail: Seq<char>,
    owners: Seq<Seq<char>>,
    nickname: Seq<char>,
    channels: Seq<Seq<char>>,
    target: Seq<char>,
    sender: Seq<char>,
)
    ensures
        ({
            let out = execute_spec(cmd, tail, owners, nickname, channels, target, sender).0;
            forall|i: int|
                0 <= i < out.len() ==> (#[trigger] out[i] matches ActionModel::Kick { nick, .. }
                    ==> nick != nickname)
        }),
{
}

} // verus!
