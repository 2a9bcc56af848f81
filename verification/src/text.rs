//! Text as the shell reads it: cutting a line into pieces and trimming them.

use vstd::prelude::*;
use vstd::string::{StrSliceExecFns, StringExecFns};

verus! {

/// Whether `c` is white space, as Unicode defines it.
pub open spec fn is_blank(c: char) -> bool {
    let n = c as u32;
    ||| 0x09 <= n <= 0x0d
    ||| n == 0x20
    ||| n == 0x85
    ||| n == 0xa0
    ||| n == 0x1680
    ||| 0x2000 <= n <= 0x200a
    ||| n == 0x2028
    ||| n == 0x2029
    ||| n == 0x202f
    ||| n == 0x205f
    ||| n == 0x3000
}

/// `s` without the white space it begins with.
pub open spec fn trim_front(s: Seq<char>) -> Seq<char>
    decreases s.len(),
{
    if s.len() > 0 && is_blank(s.first()) {
        trim_front(s.drop_first())
    } else {
        s
    }
}

/// `s` without the white space it ends with.
pub open spec fn trim_back(s: Seq<char>) -> Seq<char>
    decreases s.len(),
{
    if s.len() > 0 && is_blank(s.last()) {
        trim_back(s.drop_last())
    } else {
        s
    }
}

/// `s` without the white space around it.
pub open spec fn trimmed(s: Seq<char>) -> Seq<char> {
    trim_back(trim_front(s))
}

/// The pieces that `sep` cuts `s` into, in their order. There is one piece
/// more than `s` has separators: a separator ends one piece and begins the
/// next, so that the text without any separator is one piece, empty or not.
pub open spec fn pieces(s: Seq<char>, sep: char) -> Seq<Seq<char>>
    decreases s.len(),
{
    if s.len() == 0 {
        seq![Seq::empty()]
    } else {
        let before = pieces(s.drop_last(), sep);
        if s.last() == sep {
            before.push(Seq::empty())
        } else {
            before.drop_last().push(before.last().push(s.last()))
        }
    }
}

/// The texts of `lines`, each followed by `sep` but the last.
pub open spec fn joined(lines: Seq<Seq<char>>, sep: Seq<char>) -> Seq<char>
    decreases lines.len(),
{
    if lines.len() == 0 {
        Seq::empty()
    } else if lines.len() == 1 {
        lines[0]
    } else {
        joined(lines.drop_last(), sep) + sep + lines.last()
    }
}

/// Whether `c` is white space, as Unicode defines it.
pub fn blank(c: char) -> (b: bool)
    ensures
        b == is_blank(c),
{
    let n: u32 = c as u32;
    (0x09 <= n && n <= 0x0d) || n == 0x20 || n == 0x85 || n == 0xa0 || n == 0x1680 || (0x2000 <= n
        && n <= 0x200a) || n == 0x2028 || n == 0x2029 || n == 0x202f || n == 0x205f || n == 0x3000
}

/// The characters of `s`.
pub fn characters(s: &str) -> (v: Vec<char>)
    ensures
        v@ == s@,
{
    let mut v: Vec<char> = Vec::new();
    for c in it: s.chars()
        invariant
            it.seq() == s@,
            v@ == s@.take(it.index() as int),
    {
        let ghost before = v@;
        v.push(c);
        assert(v@ =~= s@.take(it.index() + 1));
    }
    assert(s@.take(s@.len() as int) =~= s@);
    v
}

/// The pieces that `sep` cuts `s` into, in their order: one more than `s`
/// has separators.
pub fn split(s: &str, sep: char) -> (parts: Vec<String>)
    ensures
        parts.deep_view() == pieces(s@, sep),
        parts.len() >= 1,
{
    let chars = characters(s);
    let mut parts: Vec<String> = Vec::new();
    let mut start: usize = 0;
    let mut i: usize = 0;
    assert(s@.take(0) =~= Seq::empty());
    assert(parts.deep_view() =~= pieces(s@.take(0), sep).drop_last());
    assert(s@.subrange(0, 0) =~= Seq::empty());
    while i < chars.len()
        invariant
            start <= i <= chars.len(),
            chars@ == s@,
            pieces(s@.take(i as int), sep).len() == parts.len() + 1,
            parts.deep_view() == pieces(s@.take(i as int), sep).drop_last(),
            pieces(s@.take(i as int), sep).last() == s@.subrange(start as int, i as int),
        decreases chars.len() - i,
    {
        let ghost before = pieces(s@.take(i as int), sep);
        let ghost held = parts.deep_view();
        proof {
            assert(s@.take(i + 1).drop_last() =~= s@.take(i as int));
            assert(s@.take(i + 1).last() == s@[i as int]);
        }
        if chars[i] == sep {
            parts.push(s.substring_char(start, i).to_owned());
            assert(parts.deep_view() =~= held.push(before.last()));
            assert(held.push(before.last()) =~= before);
            start = i + 1;
            assert(s@.subrange(start as int, i + 1) =~= Seq::empty());
        } else {
            assert(s@.subrange(start as int, i as int).push(s@[i as int]) =~= s@.subrange(
                start as int,
                i + 1,
            ));
            assert(before.drop_last().push(before.last().push(s@[i as int])).drop_last()
                =~= before.drop_last());
        }
        i += 1;
    }
    let ghost all = pieces(s@.take(i as int), sep);
    let ghost held = parts.deep_view();
    parts.push(s.substring_char(start, i).to_owned());
    assert(s@.take(i as int) =~= s@);
    assert(parts.deep_view() =~= held.push(all.last()));
    assert(held.push(all.last()) =~= all);
    parts
}

/// What is left of `s` once the first `a` characters, all white space, are
/// taken off, is what is left of `s`.
proof fn lemma_trim_front_skips(s: Seq<char>, a: int)
    requires
        0 <= a <= s.len(),
        forall|k: int| 0 <= k < a ==> is_blank(#[trigger] s[k]),
    ensures
        trim_front(s) == trim_front(s.skip(a)),
    decreases a,
{
    if a > 0 {
        assert(s.drop_first().skip(a - 1) =~= s.skip(a));
        lemma_trim_front_skips(s.drop_first(), a - 1);
    } else {
        assert(s.skip(0) =~= s);
    }
}

/// What is left of `s` once the characters from `b` on, all white space,
/// are taken off, is what is left of `s`.
proof fn lemma_trim_back_takes(s: Seq<char>, b: int)
    requires
        0 <= b <= s.len(),
        forall|k: int| b <= k < s.len() ==> is_blank(#[trigger] s[k]),
    ensures
        trim_back(s) == trim_back(s.take(b)),
    decreases s.len() - b,
{
    if b < s.len() {
        assert(s.drop_last().take(b) =~= s.take(b));
        lemma_trim_back_takes(s.drop_last(), b);
    } else {
        assert(s.take(b) =~= s);
    }
}

/// `s` without the white space around it.
pub fn trim(s: &str) -> (t: String)
    ensures
        t@ == trimmed(s@),
{
    let chars = characters(s);
    let n = chars.len();
    let mut a: usize = 0;
    while a < n && blank(chars[a])
        invariant
            a <= n,
            n == chars.len(),
            chars@ == s@,
            forall|k: int| 0 <= k < a ==> is_blank(#[trigger] s@[k]),
        decreases n - a,
    {
        a += 1;
    }
    let mut b: usize = n;
    while b > a && blank(chars[b - 1])
        invariant
            a <= b <= n,
            n == chars.len(),
            chars@ == s@,
            forall|k: int| b <= k < n ==> is_blank(#[trigger] s@[k]),
        decreases b,
    {
        b -= 1;
    }
    proof {
        let front = s@.skip(a as int);
        lemma_trim_front_skips(s@, a as int);
        assert(trim_front(front) == front) by {
            if front.len() > 0 {
                assert(front.first() == s@[a as int]);
            }
        }
        lemma_trim_back_takes(front, b - a);
        let kept = front.take(b - a);
        assert(kept =~= s@.subrange(a as int, b as int));
        assert(trim_back(kept) == kept) by {
            if kept.len() > 0 {
                assert(kept.last() == s@[b - 1]);
            }
        }
    }
    s.substring_char(a, b).to_owned()
}

/// The texts of `lines`, each followed by `sep` but the last.
pub fn join(lines: &[String], sep: &str) -> (text: String)
    ensures
        text@ == joined(lines.deep_view(), sep@),
{
    let ghost all = lines.deep_view();
    let mut text = String::new();
    let mut i: usize = 0;
    assert(all.take(0) =~= Seq::empty());
    while i < lines.len()
        invariant
            i <= lines.len(),
            all == lines.deep_view(),
            text@ == joined(all.take(i as int), sep@),
        decreases lines.len() - i,
    {
        proof {
            assert(all.take(i + 1).drop_last() =~= all.take(i as int));
            assert(all.take(i + 1).last() == lines[i as int]@);
        }
        if i > 0 {
            text.append(sep);
        } else {
            assert(text@ + lines[0]@ =~= lines[0]@);
        }
        text.append(lines[i].as_str());
        i += 1;
    }
    assert(all.take(all.len() as int) =~= all);
    text
}

} // verus!
