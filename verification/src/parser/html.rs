//! Scanning HTML text for elements: where an element of a given tag opens,
//! where its content starts and ends, and the content's text with markup
//! left out.
use vstd::prelude::*;
use vstd::string::*;

use crate::text::{chars_of, is_whitespace, is_ws, matches_at, occurs_at};

verus! {

/// Index of the first `c` at or after `j`, or `s.len()`.
pub open spec fn find_char_from(s: Seq<char>, c: char, j: int) -> int
    decreases s.len() - j,
{
    if j < 0 || j >= s.len() {
        s.len() as int
    } else if s[j] == c {
        j
    } else {
        find_char_from(s, c, j + 1)
    }
}

/// Index of the first occurrence of `p` at or after `j`, or `s.len()`.
pub open spec fn find_from(s: Seq<char>, p: Seq<char>, j: int) -> int
    decreases s.len() - j,
{
    if j < 0 || j >= s.len() {
        s.len() as int
    } else if occurs_at(s, p, j) {
        j
    } else {
        find_from(s, p, j + 1)
    }
}

/// A character that ends a tag name: `>`, `/` or white space.
pub open spec fn tag_delim(c: char) -> bool {
    c == '>' || c == '/' || is_ws(c)
}

/// An element of tag `t` opens at `i`: `<t` stands there, followed by a
/// character that ends the tag name (so `<a` does not open an `abbr`).
pub open spec fn opens_at(s: Seq<char>, t: Seq<char>, i: int) -> bool {
    occurs_at(s, seq!['<'] + t, i) && i + 1 + t.len() < s.len() && tag_delim(s[i + 1 + t.len()])
}

/// Where the content of the element opening at `i` starts: after the `>`
/// that closes its opening tag, or at the end of the text.
pub open spec fn content_start(s: Seq<char>, t: Seq<char>, i: int) -> int {
    let g = find_char_from(s, '>', i + 1 + t.len());
    if g < s.len() {
        g + 1
    } else {
        s.len() as int
    }
}

/// Where that content ends: at the next `</t`, or at the end of the text.
pub open spec fn content_end(s: Seq<char>, t: Seq<char>, i: int) -> int {
    find_from(s, "</"@ + t, content_start(s, t, i))
}

/// The characters of `s[i..e]` outside markup (`<` up to `>`), `in_tag`
/// telling whether `i` lies inside markup.
pub open spec fn strip_from(s: Seq<char>, i: int, e: int, in_tag: bool) -> Seq<char>
    decreases e - i,
{
    if i < 0 || i >= e || e > s.len() {
        Seq::empty()
    } else if in_tag {
        strip_from(s, i + 1, e, s[i] != '>')
    } else if s[i] == '<' {
        strip_from(s, i + 1, e, true)
    } else {
        seq![s[i]] + strip_from(s, i + 1, e, false)
    }
}

/// The number of elements of tag `t` that open at or after `i`.
pub open spec fn tag_count(s: Seq<char>, t: Seq<char>, i: int) -> nat
    decreases s.len() - i,
{
    if i < 0 || i >= s.len() {
        0
    } else {
        (if opens_at(s, t, i) {
            1nat
        } else {
            0nat
        }) + tag_count(s, t, i + 1)
    }
}

/// Index of the first `c` at or after `j` in `s`, or its length.
pub(crate) fn find_char(s: &Vec<char>, c: char, j: usize) -> (r: usize)
    requires
        j <= s@.len(),
    ensures
        r == find_char_from(s@, c, j as int),
        j <= r <= s@.len(),
{
    let mut k = j;
    while k < s.len() && s[k] != c
        invariant
            j <= k <= s@.len(),
            find_char_from(s@, c, k as int) == find_char_from(s@, c, j as int),
        decreases s@.len() - k,
    {
        k = k + 1;
    }
    k
}

/// Index of the first occurrence of `p` at or after `j` in `s`, or its
/// length.
pub(crate) fn find_seq(s: &Vec<char>, p: &Vec<char>, j: usize) -> (r: usize)
    requires
        j <= s@.len(),
    ensures
        r == find_from(s@, p@, j as int),
        j <= r <= s@.len(),
{
    let n = s.len();
    let mut k = j;
    while k < n
        invariant
            n == s@.len(),
            j <= k <= n,
            find_from(s@, p@, k as int) == find_from(s@, p@, j as int),
        decreases n - k,
    {
        if p.len() <= n - k && matches_at(s, p, k) {
            return k;
        }
        k = k + 1;
    }
    k
}

/// Whether an element of tag `t` (whose opening `<t` is `open`) opens at `i`.
pub(crate) fn opens_here(s: &Vec<char>, open: &Vec<char>, t: Ghost<Seq<char>>, i: usize) -> (r: bool)
    requires
        open@ == seq!['<'] + t@,
        i <= s@.len(),
    ensures
        r == opens_at(s@, t@, i as int),
{
    let m = open.len();
    if m >= s.len() - i {
        return false;
    }
    if !matches_at(s, open, i) {
        return false;
    }
    let c = s[i + m];
    c == '>' || c == '/' || is_whitespace(c)
}

/// The characters of `s[a..e]` outside markup, as a string.
pub(crate) fn strip_markup(text: &str, s: &Vec<char>, a: usize, e: usize) -> (r: String)
    requires
        s@ == text@,
        a <= e <= s@.len(),
    ensures
        r@ == strip_from(s@, a as int, e as int, false),
{
    let mut out = String::new();
    let mut in_tag = false;
    let mut run = a;
    let mut i = a;
    while i < e
        invariant
            s@ == text@,
            a <= run <= i <= e <= s@.len(),
            in_tag ==> run == i,
            out@ + s@.subrange(run as int, i as int) + strip_from(s@, i as int, e as int, in_tag)
                == strip_from(s@, a as int, e as int, false),
        decreases e - i,
    {
        let c = s[i];
        if in_tag {
            in_tag = c != '>';
            run = i + 1;
        } else if c == '<' {
            out.append(text.substring_char(run, i));
            in_tag = true;
            run = i + 1;
        } else {
            assert(s@.subrange(run as int, i + 1) =~= s@.subrange(run as int, i as int) + seq![c]);
        }
        proof {
            assert(s@.subrange(i + 1, i + 1) =~= Seq::<char>::empty());
            assert(s@.subrange(i as int, i as int) =~= Seq::<char>::empty());
        }
        i = i + 1;
    }
    if !in_tag {
        out.append(text.substring_char(run, e));
    }
    proof {
        assert(s@.subrange(e as int, e as int) =~= Seq::<char>::empty());
    }
    out
}

} // verus!
