//! Whitespace words, joining, and small character tests on strings.
use vstd::prelude::*;

verus! {

/// The characters with Unicode's White_Space property, which is what
/// `char::is_whitespace` tests.
pub open spec fn is_ws(c: char) -> bool {
    ||| c == ' '
    ||| ('\t' <= c && c <= '\r')
    ||| c == '\u{85}'
    ||| c == '\u{a0}'
    ||| c == '\u{1680}'
    ||| ('\u{2000}' <= c && c <= '\u{200a}')
    ||| c == '\u{2028}'
    ||| c == '\u{2029}'
    ||| c == '\u{202f}'
    ||| c == '\u{205f}'
    ||| c == '\u{3000}'
}

/// The maximal runs of non-whitespace characters of `s`, in order.
pub open spec fn words_of(s: Seq<char>) -> Seq<Seq<char>>
    decreases s.len(),
{
    if s.len() == 0 {
        Seq::empty()
    } else {
        let p = s.drop_last();
        let c = s.last();
        if is_ws(c) {
            words_of(p)
        } else if p.len() > 0 && !is_ws(p.last()) {
            let w = words_of(p);
            w.update(w.len() - 1, w.last().push(c))
        } else {
            words_of(p).push(seq![c])
        }
    }
}

/// The words of `ws` with one space between each two.
pub open spec fn join_words(ws: Seq<Seq<char>>) -> Seq<char>
    decreases ws.len(),
{
    if ws.len() == 0 {
        Seq::empty()
    } else if ws.len() == 1 {
        ws[0]
    } else {
        join_words(ws.drop_last()) + seq![' '] + ws.last()
    }
}

pub fn is_whitespace(c: char) -> (r: bool)
    ensures
        r == is_ws(c),
{
    c == ' ' || ('\t' <= c && c <= '\r') || c == '\u{85}' || c == '\u{a0}' || c == '\u{1680}'
        || ('\u{2000}' <= c && c <= '\u{200a}') || c == '\u{2028}' || c == '\u{2029}'
        || c == '\u{202f}' || c == '\u{205f}' || c == '\u{3000}'
}

/// Splits `s` into its whitespace-separated words, as `str::split_whitespace`.
pub fn split_words(s: &str) -> (r: Vec<String>)
    ensures
        r.deep_view() == words_of(s@),
{
    let n = s.unicode_len();
    let mut words: Vec<String> = Vec::new();
    let mut start: usize = 0;
    let mut in_word = false;
    let mut i: usize = 0;
    for c in it: s.chars()
        invariant
            i == it.index(),
            it.seq() == s@,
            n == s@.len(),
            start <= i,
            in_word ==> {
                &&& start < i
                &&& forall|k: int| start <= k < i ==> !is_ws(#[trigger] s@[k])
                &&& words_of(s@.take(i as int)) == words.deep_view().push(
                    s@.subrange(start as int, i as int),
                )
            },
            !in_word ==> {
                &&& (i == 0 || is_ws(s@[i - 1]))
                &&& words_of(s@.take(i as int)) == words.deep_view()
            },
    {
        let ghost before = words.deep_view();
        assert(s@.take(i + 1).drop_last() == s@.take(i as int));
        assert(s@.take(i + 1).last() == c);
        if is_whitespace(c) {
            if in_word {
                let w = s.substring_char(start, i);
                words.push(String::from_str(w));
                assert(words.deep_view() =~= before.push(s@.subrange(start as int, i as int)));
            }
            in_word = false;
        } else if !in_word {
            start = i;
            in_word = true;
            assert(s@.subrange(start as int, i + 1) =~= seq![c]);
        } else {
            assert(s@.take(i as int).last() == s@[i - 1]);
            assert(s@.subrange(start as int, i + 1) =~= s@.subrange(start as int, i as int).push(c));
            assert(before.push(s@.subrange(start as int, i as int)).update(
                before.len() as int,
                s@.subrange(start as int, i + 1),
            ) =~= before.push(s@.subrange(start as int, i + 1)));
        }
        i = i + 1;
    }
    assert(s@.take(i as int) =~= s@);
    if in_word {
        let ghost before = words.deep_view();
        let w = s.substring_char(start, i);
        words.push(String::from_str(w));
        assert(words.deep_view() =~= before.push(s@.subrange(start as int, i as int)));
    }
    words
}

/// Joins the strings of `ws` from index `start` on, with one space between
/// each two.
pub fn join_from(ws: &Vec<String>, start: usize) -> (r: String)
    requires
        start <= ws.len(),
    ensures
        r@ == join_words(ws.deep_view().subrange(start as int, ws.len() as int)),
{
    let ghost all = ws.deep_view();
    let mut r = String::new();
    let mut i: usize = start;
    assert(all.subrange(start as int, start as int) =~= Seq::<Seq<char>>::empty());
    while i < ws.len()
        invariant
            start <= i <= ws.len(),
            all == ws.deep_view(),
            r@ == join_words(all.subrange(start as int, i as int)),
        decreases ws.len() - i,
    {
        let ghost prev = all.subrange(start as int, i as int);
        let ghost next = all.subrange(start as int, i + 1);
        assert(next.drop_last() =~= prev);
        assert(next.last() == ws@[i as int]@);
        if i > start {
            r.append(" ");
        }
        r.append(ws[i].as_str());
        proof {
            reveal_strlit(" ");
            if i == start {
                assert(r@ =~= next[0]);
            } else {
                assert(r@ =~= join_words(prev) + seq![' '] + next.last());
            }
        }
        i = i + 1;
    }
    r
}

/// Whether `s` begins with `c`.
pub fn starts_with_char(s: &str, c: char) -> (r: bool)
    ensures
        r == (s@.len() > 0 && s@[0] == c),
{
    !s.is_empty() && s.get_char(0) == c
}

/// Whether `c` occurs in `s`.
pub fn contains_char(s: &str, c: char) -> (r: bool)
    ensures
        r == s@.contains(c),
{
    for d in it: s.chars()
        invariant
            it.seq() == s@,
            forall|k: int| 0 <= k < it.index() ==> s@[k] != c,
    {
        if d == c {
            return true;
        }
    }
    false
}

/// Whether `x` is one of `v`, compared exactly.
pub fn contains_string(v: &Vec<String>, x: &String) -> (r: bool)
    ensures
        r == v.deep_view().contains(x@),
{
    let mut i: usize = 0;
    while i < v.len()
        invariant
            i <= v.len(),
            forall|k: int| 0 <= k < i ==> v@[k]@ != x@,
        decreases v.len() - i,
    {
        if v[i] == *x {
            assert(v.deep_view()[i as int] == x@);
            return true;
        }
        i = i + 1;
    }
    assert(forall|k: int| 0 <= k < v.len() ==> v.deep_view()[k] != x@);
    false
}

} // verus!
