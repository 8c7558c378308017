//! Text as sequences of characters: trimming, lines, splitting and comparing.

use vstd::prelude::*;
use vstd::slice::{slice_subrange, slice_to_vec};

verus! {

/// `String::push` appends one character at the end.
pub assume_specification[ String::push ](s: &mut String, c: char)
    ensures
        final(s)@ == old(s)@.push(c),
;

/// The characters with the Unicode property `White_Space`.
pub open spec fn is_white_space(c: char) -> bool {
    ||| 0x9 <= c as u32 <= 0xd
    ||| c as u32 == 0x20
    ||| c as u32 == 0x85
    ||| c as u32 == 0xa0
    ||| c as u32 == 0x1680
    ||| 0x2000 <= c as u32 <= 0x200a
    ||| c as u32 == 0x2028
    ||| c as u32 == 0x2029
    ||| c as u32 == 0x202f
    ||| c as u32 == 0x205f
    ||| c as u32 == 0x3000
}

/// `s` without the white space at its start.
pub open spec fn trim_start(s: Seq<char>) -> Seq<char>
    decreases s.len(),
{
    if s.len() > 0 && is_white_space(s[0]) {
        trim_start(s.drop_first())
    } else {
        s
    }
}

/// `s` without the white space at its end.
pub open spec fn trim_end(s: Seq<char>) -> Seq<char>
    decreases s.len(),
{
    if s.len() > 0 && is_white_space(s.last()) {
        trim_end(s.drop_last())
    } else {
        s
    }
}

/// `s` without the white space at both ends.
pub open spec fn trim(s: Seq<char>) -> Seq<char> {
    trim_end(trim_start(s))
}

/// The index of the first `c` in `s`, or the length of `s` where it holds none.
pub open spec fn first_index(s: Seq<char>, c: char) -> nat
    decreases s.len(),
{
    if s.len() == 0 || s[0] == c {
        0
    } else {
        1 + first_index(s.drop_first(), c)
    }
}

/// The parts of `s` before and after its first `c`.
pub open spec fn split_once(s: Seq<char>, c: char) -> Option<(Seq<char>, Seq<char>)> {
    let k = first_index(s, c) as int;
    if k < s.len() {
        Some((s.take(k), s.skip(k + 1)))
    } else {
        None
    }
}

/// `s` without a carriage return at its end.
pub open spec fn strip_return(s: Seq<char>) -> Seq<char> {
    if s.len() > 0 && s.last() == '\r' {
        s.drop_last()
    } else {
        s
    }
}

/// The lines of `s`. A line ends in a line feed, which a carriage return may precede;
/// the ending of the last line is optional, and no ending is part of its line.
pub open spec fn lines(s: Seq<char>) -> Seq<Seq<char>>
    decreases s.len(),
{
    let k = first_index(s, '\n') as int;
    if s.len() == 0 {
        seq![]
    } else if k >= s.len() {
        seq![s]
    } else {
        seq![strip_return(s.take(k))] + lines(s.skip(k + 1))
    }
}

/// The texts that a sequence of character vectors holds.
pub open spec fn views(v: Seq<Vec<char>>) -> Seq<Seq<char>> {
    v.map_values(|x: Vec<char>| x@)
}

/// The texts that a sequence of strings holds.
pub open spec fn texts(v: Seq<String>) -> Seq<Seq<char>> {
    v.map_values(|x: String| x@)
}

/// A text that one line can carry and that trimming leaves as it is.
pub open spec fn is_clean(s: Seq<char>) -> bool {
    &&& trim(s) == s
    &&& !s.contains('\n')
}

/// Tells whether `s` holds anything but white space.
pub open spec fn has_ink(s: Seq<char>) -> bool {
    exists|i: int| 0 <= i < s.len() && !is_white_space(#[trigger] s[i])
}

/// An index that ends a run without `c` is the first index of `c`.
pub proof fn lemma_first_index(s: Seq<char>, c: char, k: int)
    requires
        0 <= k <= s.len(),
        forall|i: int| 0 <= i < k ==> s[i] != c,
        k < s.len() ==> s[k] == c,
    ensures
        first_index(s, c) == k,
    decreases s.len(),
{
    if s.len() > 0 && s[0] != c {
        assert forall|i: int| 0 <= i < k - 1 implies s.drop_first()[i] != c by {
            assert(s.drop_first()[i] == s[i + 1]);
        }
        lemma_first_index(s.drop_first(), c, k - 1);
    }
}

/// Trimming keeps a text that neither starts nor ends with white space.
pub proof fn lemma_trim_fixed(s: Seq<char>)
    requires
        s.len() > 0 ==> !is_white_space(s[0]) && !is_white_space(s.last()),
    ensures
        trim(s) == s,
{
}

proof fn lemma_trim_start(s: Seq<char>)
    ensures
        trim_start(s).len() > 0 ==> !is_white_space(trim_start(s)[0]),
        exists|k: int| 0 <= k <= s.len() && trim_start(s) == #[trigger] s.skip(k),
    decreases s.len(),
{
    if s.len() > 0 && is_white_space(s[0]) {
        lemma_trim_start(s.drop_first());
        let k = choose|k: int|
            0 <= k <= s.drop_first().len() && trim_start(s.drop_first())
                == #[trigger] s.drop_first().skip(k);
        assert(s.drop_first().skip(k) =~= s.skip(k + 1));
    } else {
        assert(s.skip(0) =~= s);
    }
}

proof fn lemma_trim_end(s: Seq<char>)
    ensures
        trim_end(s).len() > 0 ==> !is_white_space(trim_end(s).last()),
        exists|k: int| 0 <= k <= s.len() && trim_end(s) == #[trigger] s.take(k),
    decreases s.len(),
{
    if s.len() > 0 && is_white_space(s.last()) {
        lemma_trim_end(s.drop_last());
        let k = choose|k: int|
            0 <= k <= s.drop_last().len() && trim_end(s.drop_last())
                == #[trigger] s.drop_last().take(k);
        assert(s.drop_last().take(k) =~= s.take(k));
    } else {
        assert(s.take(s.len() as int) =~= s);
    }
}

/// Trimming leaves a part of the text, which neither starts nor ends with white space, so
/// trimming it again changes nothing.
pub proof fn trim_settles(s: Seq<char>)
    ensures
        trim(trim(s)) == trim(s),
        forall|c: char| #[trigger] trim(s).contains(c) ==> s.contains(c),
{
    lemma_trim_start(s);
    lemma_trim_end(trim_start(s));
    let a = trim_start(s);
    let k = choose|k: int| 0 <= k <= s.len() && a == #[trigger] s.skip(k);
    let n = choose|n: int| 0 <= n <= a.len() && trim_end(a) == #[trigger] a.take(n);
    let t = trim(s);
    assert(t.len() > 0 ==> t[0] == a[0]);
    lemma_trim_fixed(t);
    assert forall|c: char| #[trigger] t.contains(c) implies s.contains(c) by {
        let i = choose|i: int| 0 <= i < t.len() && t[i] == c;
        assert(s[k + i] == c);
    }
}

/// A text that trimming keeps neither starts nor ends with white space.
pub proof fn lemma_trim_ends(s: Seq<char>)
    requires
        trim(s) == s,
        s.len() > 0,
    ensures
        !is_white_space(s[0]),
        !is_white_space(s.last()),
{
    lemma_trim_start(s);
    lemma_trim_end(trim_start(s));
    if is_white_space(s[0]) {
        lemma_trim_start(s.drop_first());
        lemma_trim_end(trim_start(s.drop_first()));
        assert(trim(s).len() < s.len());
    }
}

/// The first index of a character ends a run without it.
pub proof fn lemma_first_index_bounds(s: Seq<char>, c: char)
    ensures
        first_index(s, c) <= s.len(),
        first_index(s, c) < s.len() ==> s[first_index(s, c) as int] == c,
        forall|i: int| 0 <= i < first_index(s, c) ==> s[i] != c,
    decreases s.len(),
{
    if s.len() > 0 && s[0] != c {
        let rest = s.drop_first();
        lemma_first_index_bounds(rest, c);
        assert forall|i: int| 0 <= i < first_index(s, c) implies s[i] != c by {
            if i > 0 {
                assert(rest[i - 1] == s[i]);
            }
        }
    }
}

/// No line holds a line feed.
pub proof fn lines_hold_no_feed(s: Seq<char>)
    ensures
        forall|i: int| 0 <= i < lines(s).len() ==> !(#[trigger] lines(s)[i]).contains('\n'),
    decreases s.len(),
{
    lemma_first_index_bounds(s, '\n');
    let k = first_index(s, '\n') as int;
    if s.len() > 0 && k < s.len() {
        let rest = lines(s.skip(k + 1));
        lines_hold_no_feed(s.skip(k + 1));
        assert forall|i: int| 0 <= i < lines(s).len() implies !(#[trigger] lines(s)[i]).contains(
            '\n',
        ) by {
            if i > 0 {
                assert(lines(s)[i] == rest[i - 1]);
            }
        }
    }
}

proof fn lemma_trim_start_ink(s: Seq<char>)
    ensures
        has_ink(trim_start(s)) <==> has_ink(s),
        trim_start(s).len() > 0 ==> has_ink(s),
    decreases s.len(),
{
    if s.len() > 0 && is_white_space(s[0]) {
        let rest = s.drop_first();
        lemma_trim_start_ink(rest);
        if has_ink(s) {
            let i = choose|i: int| 0 <= i < s.len() && !is_white_space(#[trigger] s[i]);
            assert(rest[i - 1] == s[i]);
        }
        if has_ink(rest) {
            let i = choose|i: int| 0 <= i < rest.len() && !is_white_space(#[trigger] rest[i]);
            assert(s[i + 1] == rest[i]);
        }
    } else if s.len() > 0 {
        assert(!is_white_space(s[0]));
    }
}

proof fn lemma_trim_end_ink(s: Seq<char>)
    ensures
        trim_end(s).len() > 0 <==> has_ink(s),
    decreases s.len(),
{
    if s.len() > 0 && is_white_space(s.last()) {
        let rest = s.drop_last();
        lemma_trim_end_ink(rest);
        if has_ink(s) {
            let i = choose|i: int| 0 <= i < s.len() && !is_white_space(#[trigger] s[i]);
            assert(rest[i] == s[i]);
        }
        if has_ink(rest) {
            let i = choose|i: int| 0 <= i < rest.len() && !is_white_space(#[trigger] rest[i]);
            assert(s[i] == rest[i]);
        }
    } else if s.len() > 0 {
        assert(!is_white_space(s[s.len() - 1]));
    }
}

/// Trimming leaves something just where there is more than white space.
pub proof fn trim_finds_ink(s: Seq<char>)
    ensures
        trim(s).len() > 0 <==> has_ink(s),
{
    lemma_trim_start_ink(s);
    lemma_trim_end_ink(trim_start(s));
}

/// A text holds more than white space just if one of its lines does.
pub proof fn lines_keep_ink(s: Seq<char>)
    ensures
        has_ink(s) <==> exists|k: int| 0 <= k < lines(s).len() && has_ink(#[trigger] lines(s)[k]),
    decreases s.len(),
{
    lemma_first_index_bounds(s, '\n');
    let n = first_index(s, '\n') as int;
    if s.len() > 0 && n < s.len() {
        let first = strip_return(s.take(n));
        let after = s.skip(n + 1);
        let rest = lines(after);
        lines_keep_ink(after);
        assert(lines(s)[0] == first);
        assert forall|k: int| 0 <= k < rest.len() implies #[trigger] lines(s)[k + 1] == rest[k] by {
        }
        if has_ink(s) {
            let i = choose|i: int| 0 <= i < s.len() && !is_white_space(#[trigger] s[i]);
            if i < n {
                assert(first[i] == s[i]);
                assert(has_ink(lines(s)[0]));
            } else {
                assert(after[i - n - 1] == s[i]);
                let k = choose|k: int| 0 <= k < rest.len() && has_ink(#[trigger] rest[k]);
                assert(has_ink(lines(s)[k + 1]));
            }
        }
        if exists|k: int| 0 <= k < lines(s).len() && has_ink(#[trigger] lines(s)[k]) {
            let k = choose|k: int| 0 <= k < lines(s).len() && has_ink(#[trigger] lines(s)[k]);
            if k == 0 {
                let i = choose|i: int| 0 <= i < first.len() && !is_white_space(#[trigger] first[i]);
                assert(s[i] == first[i]);
            } else {
                assert(has_ink(rest[k - 1]));
                let i = choose|i: int| 0 <= i < after.len() && !is_white_space(#[trigger] after[i]);
                assert(s[n + 1 + i] == after[i]);
            }
        }
    } else if s.len() > 0 {
        assert(lines(s)[0] == s);
    }
}

/// Every line is clean once it is trimmed.
pub proof fn trimmed_line_clean(s: Seq<char>, i: int)
    requires
        0 <= i < lines(s).len(),
    ensures
        is_clean(trim(lines(s)[i])),
{
    lines_hold_no_feed(s);
    trim_settles(lines(s)[i]);
}

/// Tells whether `c` has the Unicode property `White_Space`.
pub fn white_space(c: char) -> (r: bool)
    ensures
        r == is_white_space(c),
{
    let n: u32 = c as u32;
    (0x9 <= n && n <= 0xd) || n == 0x20 || n == 0x85 || n == 0xa0 || n == 0x1680 || (0x2000 <= n
        && n <= 0x200a) || n == 0x2028 || n == 0x2029 || n == 0x202f || n == 0x205f || n == 0x3000
}

/// The characters of `s`.
pub fn chars_of(s: &str) -> (r: Vec<char>)
    ensures
        r@ == s@,
{
    let mut r: Vec<char> = Vec::new();
    for c in it: s.chars()
        invariant
            it.seq() == s@,
            r@ == s@.take(it.index()),
    {
        r.push(c);
    }
    r
}

/// The string made of `chars`.
pub fn string_of(chars: &[char]) -> (r: String)
    ensures
        r@ == chars@,
{
    let mut r: String = String::new();
    for i in 0..chars.len()
        invariant
            r@ == chars@.take(i as int),
    {
        r.push(chars[i]);
        assert(chars@.take(i as int).push(chars@[i as int]) =~= chars@.take(i + 1));
    }
    assert(chars@.take(chars@.len() as int) =~= chars@);
    r
}

/// Tells whether `chars` spell `s`.
pub fn same_text(chars: &[char], s: &str) -> (r: bool)
    ensures
        r == (chars@ == s@),
{
    let other = chars_of(s);
    if chars.len() != other.len() {
        return false;
    }
    for i in 0..chars.len()
        invariant
            chars@.len() == other@.len(),
            other@ == s@,
            forall|j: int| 0 <= j < i ==> chars@[j] == other@[j],
    {
        if chars[i] != other[i] {
            return false;
        }
    }
    assert(chars@ =~= other@);
    true
}

/// Tells whether `chars` start with `prefix`.
pub fn starts_with(chars: &[char], prefix: &str) -> (r: bool)
    ensures
        r == prefix@.is_prefix_of(chars@),
{
    let head = chars_of(prefix);
    if chars.len() < head.len() {
        return false;
    }
    let front = slice_subrange(chars, 0, head.len());
    let r = same_text(front, prefix);
    assert(r == prefix@.is_prefix_of(chars@));
    r
}

/// `chars` without the white space at both ends.
pub fn trimmed(chars: &[char]) -> (r: &[char])
    ensures
        r@ == trim(chars@),
{
    let n: usize = chars.len();
    let mut i: usize = 0;
    assert(chars@.skip(0) =~= chars@);
    while i < n && white_space(chars[i])
        invariant
            n == chars@.len(),
            i <= n,
            trim_start(chars@.skip(i as int)) == trim_start(chars@),
        decreases n - i,
    {
        assert(chars@.skip(i as int).drop_first() =~= chars@.skip(i + 1));
        i = i + 1;
    }
    assert(trim_start(chars@) == chars@.skip(i as int));
    let mut j: usize = n;
    assert(chars@.skip(i as int) =~= chars@.subrange(i as int, n as int));
    while i < j && white_space(chars[j - 1])
        invariant
            n == chars@.len(),
            i <= j <= n,
            trim_end(chars@.subrange(i as int, j as int)) == trim(chars@),
        decreases j,
    {
        assert(chars@.subrange(i as int, j as int).drop_last() =~= chars@.subrange(
            i as int,
            j - 1,
        ));
        j = j - 1;
    }
    slice_subrange(chars, i, j)
}

/// The index of the first `c` in `chars`, or their number where there is none.
pub fn find(chars: &[char], c: char) -> (r: usize)
    ensures
        r == first_index(chars@, c),
        r <= chars@.len(),
        forall|i: int| 0 <= i < r ==> chars@[i] != c,
        r < chars@.len() ==> chars@[r as int] == c,
{
    let mut i: usize = 0;
    while i < chars.len() && chars[i] != c
        invariant
            i <= chars@.len(),
            forall|j: int| 0 <= j < i ==> chars@[j] != c,
        decreases chars@.len() - i,
    {
        i = i + 1;
    }
    proof {
        lemma_first_index(chars@, c, i as int);
    }
    i
}

/// The lines of `chars`.
pub fn line_list(chars: &[char]) -> (r: Vec<Vec<char>>)
    ensures
        views(r@) == lines(chars@),
{
    let mut r: Vec<Vec<char>> = Vec::new();
    let mut rest: &[char] = chars;
    assert(views(r@) + lines(chars@) =~= lines(chars@));
    while rest.len() > 0
        invariant
            views(r@) + lines(rest@) == lines(chars@),
        decreases rest@.len(),
    {
        let ghost before = r@;
        let k: usize = find(rest, '\n');
        let mut end: usize = k;
        if k < rest.len() && k > 0 && rest[k - 1] == '\r' {
            end = k - 1;
        }
        let line = slice_subrange(rest, 0, end);
        let ghost line_text = line@;
        r.push(slice_to_vec(line));
        assert(r@.last()@ =~= line_text);
        assert(views(r@) =~= views(before).push(line_text));
        if k < rest.len() {
            assert(line_text =~= strip_return(rest@.take(k as int)));
            let ghost tail = rest@.skip(k + 1);
            assert(seq![line_text] + lines(tail) == lines(rest@));
            assert(views(r@) + lines(tail) =~= views(before) + (seq![line_text] + lines(tail)));
            rest = slice_subrange(rest, k + 1, rest.len());
            assert(rest@ =~= tail);
        } else {
            assert(line_text =~= rest@);
            assert(lines(rest@) == seq![line_text]);
            assert(views(before) + lines(rest@) =~= views(r@));
            rest = slice_subrange(rest, k, k);
            assert(rest@.len() == 0);
            assert(views(r@) + lines(rest@) =~= views(r@));
        }
    }
    assert(views(r@) + lines(rest@) =~= views(r@));
    r
}

/// Tells whether `s` holds white space only.
pub open spec fn is_blank(s: Seq<char>) -> bool {
    forall|i: int| 0 <= i < s.len() ==> is_white_space(#[trigger] s[i])
}

/// White space in front of a text is no part of what trimming its start leaves.
pub proof fn lemma_skip_blank(blank: Seq<char>, s: Seq<char>)
    requires
        is_blank(blank),
    ensures
        trim_start(blank + s) == trim_start(s),
    decreases blank.len(),
{
    if blank.len() == 0 {
        assert(blank + s =~= s);
    } else {
        assert(is_white_space(blank[0]));
        assert forall|i: int| 0 <= i < blank.drop_first().len() implies is_white_space(
            #[trigger] blank.drop_first()[i],
        ) by {
            assert(blank.drop_first()[i] == blank[i + 1]);
        }
        assert((blank + s).drop_first() =~= blank.drop_first() + s);
        lemma_skip_blank(blank.drop_first(), s);
    }
}

proof fn lemma_drop_blank(s: Seq<char>, blank: Seq<char>)
    requires
        is_blank(blank),
    ensures
        trim_end(s + blank) == trim_end(s),
    decreases blank.len(),
{
    if blank.len() == 0 {
        assert(s + blank =~= s);
    } else {
        assert(is_white_space(blank[blank.len() - 1]));
        assert forall|i: int| 0 <= i < blank.drop_last().len() implies is_white_space(
            #[trigger] blank.drop_last()[i],
        ) by {
            assert(blank.drop_last()[i] == blank[i]);
        }
        assert((s + blank).drop_last() =~= s + blank.drop_last());
        lemma_drop_blank(s, blank.drop_last());
    }
}

/// Trimming takes away white space at both ends, as much as there is, and nothing else.
pub proof fn trim_takes_white_space_off(before: Seq<char>, s: Seq<char>, after: Seq<char>)
    requires
        is_blank(before),
        is_blank(after),
        s.len() > 0 ==> !is_white_space(s[0]) && !is_white_space(s.last()),
    ensures
        trim(before + s + after) == s,
{
    assert(before + s + after =~= before + (s + after));
    lemma_skip_blank(before, s + after);
    if s.len() > 0 {
        assert((s + after)[0] == s[0]);
        lemma_drop_blank(s, after);
    } else {
        assert(s + after =~= after);
        assert(after + s =~= after);
        lemma_skip_blank(after, s);
        assert(trim_end(s) == s);
    }
}

/// Which characters count as white space.
pub proof fn white_space_characters(c: char)
    ensures
        c == ' ' || c == '\t' || c == '\n' || c == '\r' ==> is_white_space(c),
        0x21 <= (c as u32) <= 0x7e ==> !is_white_space(c),
        0xa1 <= (c as u32) < 0x1680 ==> !is_white_space(c),
        0x3000 < (c as u32) ==> !is_white_space(c),
{
}

/// A text is split at the first separator, and one without the separator is not split.
pub proof fn split_at_the_first_separator(before: Seq<char>, c: char, after: Seq<char>)
    requires
        !before.contains(c),
    ensures
        split_once(before + seq![c] + after, c) == Some((before, after)),
        split_once(before, c) is None,
{
    let s = before + seq![c] + after;
    assert forall|i: int| 0 <= i < before.len() implies s[i] != c && before[i] != c by {
        assert(before.contains(before[i]));
    }
    lemma_first_index(s, c, before.len() as int);
    lemma_first_index(before, c, before.len() as int);
    assert(s.take(before.len() as int) =~= before);
    assert(s.skip(before.len() as int + 1) =~= after);
}

/// A line ends at its line feed, or at a carriage return right in front of it, and the lines
/// of the rest follow.
pub proof fn line_ends_at_its_feed(line: Seq<char>, rest: Seq<char>)
    requires
        !line.contains('\n'),
    ensures
        lines(line + seq!['\r', '\n'] + rest) == seq![line] + lines(rest),
        line.len() == 0 || line.last() != '\r' ==> lines(line + seq!['\n'] + rest) == seq![line]
            + lines(rest),
{
    assert forall|i: int| 0 <= i < line.len() implies line[i] != '\n' by {
        assert(line.contains(line[i]));
    }
    let n = line.len() as int;
    let with_return = line + seq!['\r', '\n'] + rest;
    lemma_first_index(with_return, '\n', n + 1);
    assert(with_return.take(n + 1) =~= line.push('\r'));
    assert(strip_return(line.push('\r')) =~= line);
    assert(with_return.skip(n + 2) =~= rest);
    let plain = line + seq!['\n'] + rest;
    lemma_first_index(plain, '\n', n);
    assert(plain.take(n) =~= line);
    assert(plain.skip(n + 1) =~= rest);
}

/// The last line needs no line feed, and keeps all its characters without one; an empty text
/// has no lines.
pub proof fn last_line_needs_no_feed(line: Seq<char>)
    requires
        !line.contains('\n'),
    ensures
        line.len() > 0 ==> lines(line) == seq![line],
        lines(seq![]) == Seq::<Seq<char>>::empty(),
{
    assert forall|i: int| 0 <= i < line.len() implies line[i] != '\n' by {
        assert(line.contains(line[i]));
    }
    lemma_first_index(line, '\n', line.len() as int);
}

/// Lines that are all ended are the lines of both parts.
pub proof fn lines_of_two_parts(head: Seq<char>, rest: Seq<char>)
    requires
        head.len() == 0 || head.last() == '\n',
    ensures
        lines(head + rest) == lines(head) + lines(rest),
    decreases head.len(),
{
    if head.len() == 0 {
        assert(head + rest =~= rest);
        assert(lines(head) + lines(rest) =~= lines(rest));
    } else {
        lemma_first_index_bounds(head, '\n');
        let k = first_index(head, '\n') as int;
        assert(k < head.len()) by {
            if k >= head.len() {
                assert(head[head.len() - 1] != '\n');
            }
        }
        let all = head + rest;
        assert forall|i: int| 0 <= i < k implies all[i] != '\n' by {
            assert(all[i] == head[i]);
        }
        lemma_first_index(all, '\n', k);
        let tail = head.skip(k + 1);
        assert(all.take(k) =~= head.take(k));
        assert(all.skip(k + 1) =~= tail + rest);
        assert(tail.len() > 0 ==> tail.last() == head.last());
        lines_of_two_parts(tail, rest);
        assert(lines(all) =~= lines(head) + lines(rest));
    }
}

/// The functions on characters give what they are named for.
pub proof fn characters_are_kept(
    s: &str,
    chars: Vec<char>,
    slice: &[char],
    string: String,
    same: bool,
    starts: bool,
    other: &str,
)
    requires
        call_ensures(chars_of, (s,), chars),
        call_ensures(string_of, (slice,), string),
        call_ensures(same_text, (slice, other), same),
        call_ensures(starts_with, (slice, other), starts),
    ensures
        chars@ == s@,
        string@ == slice@,
        same <==> slice@ == other@,
        starts <==> exists|rest: Seq<char>| slice@ == other@ + rest,
{
    if starts {
        assert(slice@ =~= other@ + slice@.skip(other@.len() as int));
    }
    if exists|rest: Seq<char>| slice@ == other@ + rest {
        let rest = choose|rest: Seq<char>| slice@ == other@ + rest;
        assert((other@ + rest).take(other@.len() as int) =~= other@);
    }
}

/// White space behind a text changes nothing of what trimming leaves.
pub proof fn trim_ignores_white_space_behind(s: Seq<char>, blank: Seq<char>)
    requires
        is_blank(blank),
    ensures
        trim(s + blank) == trim(s),
    decreases s.len(),
{
    let empty = Seq::<char>::empty();
    if s.len() == 0 {
        assert(s + blank =~= empty + empty + blank);
        trim_takes_white_space_off(empty, empty, blank);
        assert(s =~= empty);
    } else if is_white_space(s[0]) {
        assert((s + blank).drop_first() =~= s.drop_first() + blank);
        trim_ignores_white_space_behind(s.drop_first(), blank);
    } else {
        assert((s + blank)[0] == s[0]);
        lemma_drop_blank(s, blank);
    }
}

/// Trimming a line leaves the same whether its carriage return is taken off or not.
pub proof fn trim_ignores_return(s: Seq<char>)
    ensures
        trim(strip_return(s)) == trim(s),
{
    if s.len() > 0 && s.last() == '\r' {
        trim_ignores_white_space_behind(s.drop_last(), seq!['\r']);
        assert(s.drop_last() + seq!['\r'] =~= s);
    }
}

/// A line that has ended is the first of the lines, but for a carriage return at its end.
pub proof fn ended_line_comes_first(line: Seq<char>, rest: Seq<char>)
    requires
        !line.contains('\n'),
    ensures
        lines(line + seq!['\n'] + rest) == seq![strip_return(line)] + lines(rest),
{
    if line.len() > 0 && line.last() == '\r' {
        let front = line.drop_last();
        assert(!front.contains('\n')) by {
            if front.contains('\n') {
                let i = choose|i: int| 0 <= i < front.len() && front[i] == '\n';
                assert(line[i] == '\n');
            }
        }
        line_ends_at_its_feed(front, rest);
        assert(front + seq!['\r', '\n'] + rest =~= line + seq!['\n'] + rest);
    } else {
        line_ends_at_its_feed(line, rest);
    }
}

/// What a text starts with that is not white space, it starts with once it is trimmed, whatever
/// white space stands before it.
pub proof fn trim_keeps_first_ink(before: Seq<char>, s: Seq<char>)
    requires
        is_blank(before),
        s.len() > 0,
        !is_white_space(s[0]),
    ensures
        trim(before + s).len() > 0,
        trim(before + s)[0] == s[0],
{
    lemma_skip_blank(before, s);
    lemma_trim_end(s);
    lemma_trim_end_ink(s);
    assert(has_ink(s));
}

/// Trimming, cutting into lines and finding a character give what the text has of them.
pub proof fn parts_are_those_of_the_text(
    chars: &[char],
    kept: &[char],
    cut: Vec<Vec<char>>,
    c: char,
    k: usize,
    white: bool,
    i: int,
)
    requires
        call_ensures(trimmed, (chars,), kept),
        call_ensures(line_list, (chars,), cut),
        call_ensures(find, (chars, c), k),
        call_ensures(white_space, (c,), white),
    ensures
        kept@ == trim(chars@),
        cut@.len() == lines(chars@).len(),
        0 <= i < cut@.len() ==> cut@[i]@ == lines(chars@)[i],
        k <= chars@.len(),
        k < chars@.len() ==> chars@[k as int] == c,
        0 <= i < k ==> chars@[i] != c,
        white == is_white_space(c),
{
    assert(views(cut@).len() == cut@.len());
    if 0 <= i < cut@.len() {
        assert(views(cut@)[i] == cut@[i]@);
    }
}

} // verus!
