//! Strings as sequences of characters: splitting, trimming, comparing,
//! numbers in decimal and hexadecimal.

use vstd::prelude::*;
use vstd::slice::slice_subrange;
use vstd::string::*;
use vstd::utf8::*;

verus! {

/// `String::push` of the standard library appends one character.
pub assume_specification[ String::push ](s: &mut String, c: char)
    ensures
        final(s)@ == old(s)@.push(c),
;

/// `std::str::from_utf8` of the standard library: the text that the bytes encode, where they
/// are valid UTF-8.
#[verifier::external_body]
pub(crate) fn utf8_text(b: &[u8]) -> (r: Option<String>)
    ensures
        match r {
            Some(s) => valid_utf8(b@) && s@ == decode_utf8(b@),
            None => !valid_utf8(b@),
        },
{
    match std::str::from_utf8(b) {
        Ok(s) => Some(s.to_string()),
        Err(_) => None,
    }
}

// ---------------------------------------------------------------------------
// Characters
// ---------------------------------------------------------------------------

/// The characters with the Unicode property `White_Space`.
pub open spec fn is_space(c: char) -> bool {
    let u = c as u32;
    ||| 0x9 <= u <= 0xd
    ||| u == 0x20
    ||| u == 0x85
    ||| u == 0xa0
    ||| u == 0x1680
    ||| 0x2000 <= u <= 0x200a
    ||| u == 0x2028
    ||| u == 0x2029
    ||| u == 0x202f
    ||| u == 0x205f
    ||| u == 0x3000
}

pub fn char_is_space(c: char) -> (r: bool)
    ensures
        r == is_space(c),
{
    let u: u32 = c as u32;
    (0x9 <= u && u <= 0xd) || u == 0x20 || u == 0x85 || u == 0xa0 || u == 0x1680 || (0x2000 <= u
        && u <= 0x200a) || u == 0x2028 || u == 0x2029 || u == 0x202f || u == 0x205f || u == 0x3000
}

pub open spec fn is_digit(c: char) -> bool {
    '0' <= c <= '9'
}

/// The characters of a string.
pub fn chars_of(s: &str) -> (r: Vec<char>)
    ensures
        r@ == s@,
{
    let mut v: Vec<char> = Vec::new();
    for c in it: s.chars()
        invariant
            v@ == it.seq().take(it.index()),
            it.seq() == s@,
    {
        v.push(c);
        proof {
            assert(it.seq().take(it.index() + 1) =~= it.seq().take(it.index()).push(c));
        }
    }
    v
}

/// The string of the given characters.
pub fn string_of(v: &[char]) -> (r: String)
    ensures
        r@ == v@,
{
    let mut s = String::new();
    let mut i: usize = 0;
    while i < v.len()
        invariant
            i <= v@.len(),
            s@ == v@.take(i as int),
        decreases v@.len() - i,
    {
        s.push(v[i]);
        proof {
            assert(v@.take(i as int + 1) =~= v@.take(i as int).push(v@[i as int]));
        }
        i += 1;
    }
    proof {
        assert(v@.take(v@.len() as int) =~= v@);
    }
    s
}

// ---------------------------------------------------------------------------
// Searching
// ---------------------------------------------------------------------------

/// The position of the first `c` in `s`, or the length of `s` where there is none.
pub open spec fn first_index(s: Seq<char>, c: char) -> int
    decreases s.len(),
{
    if s.len() == 0 {
        0
    } else if s[0] == c {
        0
    } else {
        1 + first_index(s.skip(1), c)
    }
}

/// The position of the last `c` in `s`, or -1 where there is none.
pub open spec fn last_index(s: Seq<char>, c: char) -> int
    decreases s.len(),
{
    if s.len() == 0 {
        -1
    } else if s.last() == c {
        s.len() - 1
    } else {
        last_index(s.drop_last(), c)
    }
}

/// `first_index` is the only position that holds `c` with no `c` before it.
pub proof fn lemma_first_index(s: Seq<char>, c: char, i: int)
    requires
        0 <= i <= s.len(),
        forall|j: int| 0 <= j < i ==> s[j] != c,
        i < s.len() ==> s[i] == c,
    ensures
        first_index(s, c) == i,
    decreases s.len(),
{
    if s.len() > 0 && s[0] != c {
        assert forall|j: int| 0 <= j < i - 1 implies s.skip(1)[j] != c by {
            assert(s.skip(1)[j] == s[j + 1]);
        }
        lemma_first_index(s.skip(1), c, i - 1);
    }
}

/// What `first_index` says of the characters up to it.
pub proof fn lemma_first_index_props(s: Seq<char>, c: char)
    ensures
        0 <= first_index(s, c) <= s.len(),
        forall|j: int| 0 <= j < first_index(s, c) ==> s[j] != c,
        first_index(s, c) < s.len() ==> s[first_index(s, c)] == c,
    decreases s.len(),
{
    if s.len() > 0 && s[0] != c {
        lemma_first_index_props(s.skip(1), c);
        assert forall|j: int| 0 <= j < first_index(s, c) implies s[j] != c by {
            if j > 0 {
                assert(s.skip(1)[j - 1] == s[j]);
            }
        }
        if first_index(s, c) < s.len() {
            assert(s.skip(1)[first_index(s, c) - 1] == s[first_index(s, c)]);
        }
    }
}

/// `last_index` is the only position that holds `c` with no `c` behind it.
pub proof fn lemma_last_index(s: Seq<char>, c: char, i: int)
    requires
        -1 <= i < s.len(),
        forall|j: int| i < j < s.len() ==> s[j] != c,
        i >= 0 ==> s[i] == c,
    ensures
        last_index(s, c) == i,
    decreases s.len(),
{
    if s.len() > 0 && s.last() != c {
        lemma_last_index(s.drop_last(), c, i);
    }
}

pub fn find_char(s: &[char], c: char) -> (r: usize)
    ensures
        r == first_index(s@, c),
        r <= s@.len(),
{
    let mut i: usize = 0;
    while i < s.len()
        invariant
            i <= s@.len(),
            forall|j: int| 0 <= j < i ==> s@[j] != c,
        decreases s@.len() - i,
    {
        if s[i] == c {
            proof {
                lemma_first_index(s@, c, i as int);
            }
            return i;
        }
        i += 1;
    }
    proof {
        lemma_first_index(s@, c, i as int);
    }
    i
}

pub fn rfind_char(s: &[char], c: char) -> (r: Option<usize>)
    ensures
        match r {
            Some(i) => i == last_index(s@, c) && i < s@.len(),
            None => last_index(s@, c) == -1,
        },
{
    let mut i: usize = s.len();
    while i > 0
        invariant
            i <= s@.len(),
            forall|j: int| i <= j < s@.len() ==> s@[j] != c,
        decreases i,
    {
        i -= 1;
        if s[i] == c {
            proof {
                lemma_last_index(s@, c, i as int);
            }
            return Some(i);
        }
    }
    proof {
        lemma_last_index(s@, c, -1);
    }
    None
}

pub fn same_chars(a: &[char], b: &[char]) -> (r: bool)
    ensures
        r == (a@ == b@),
{
    if a.len() != b.len() {
        return false;
    }
    let mut i: usize = 0;
    while i < a.len()
        invariant
            a@.len() == b@.len(),
            i <= a@.len(),
            forall|j: int| 0 <= j < i ==> a@[j] == b@[j],
        decreases a@.len() - i,
    {
        if a[i] != b[i] {
            return false;
        }
        i += 1;
    }
    proof {
        assert(a@ =~= b@);
    }
    true
}

/// Whether two strings hold the same characters.
pub fn same_text(a: &str, b: &str) -> (r: bool)
    ensures
        r == (a@ == b@),
{
    let x = chars_of(a);
    let y = chars_of(b);
    same_chars(x.as_slice(), y.as_slice())
}

pub open spec fn has_prefix(s: Seq<char>, p: Seq<char>) -> bool {
    p.len() <= s.len() && s.take(p.len() as int) == p
}

pub open spec fn has_suffix(s: Seq<char>, p: Seq<char>) -> bool {
    p.len() <= s.len() && s.skip(s.len() - p.len()) == p
}

pub open spec fn occurs_at(s: Seq<char>, p: Seq<char>, i: int) -> bool {
    0 <= i && i + p.len() <= s.len() && s.subrange(i, i + p.len()) == p
}

/// Whether `p` occurs somewhere in `s`.
pub open spec fn occurs(s: Seq<char>, p: Seq<char>) -> bool {
    exists|i: int| occurs_at(s, p, i)
}

pub fn starts_with(s: &[char], p: &[char]) -> (r: bool)
    ensures
        r == has_prefix(s@, p@),
{
    if s.len() < p.len() {
        return false;
    }
    proof {
        assert(s@.take(p@.len() as int) =~= s@.subrange(0, p@.len() as int));
    }
    same_chars(slice_subrange(s, 0, p.len()), p)
}

pub fn ends_with(s: &[char], p: &[char]) -> (r: bool)
    ensures
        r == has_suffix(s@, p@),
{
    if s.len() < p.len() {
        return false;
    }
    proof {
        assert(s@.skip(s@.len() - p@.len()) =~= s@.subrange(s@.len() - p@.len(), s@.len() as int));
    }
    same_chars(slice_subrange(s, s.len() - p.len(), s.len()), p)
}

pub fn text_starts_with(s: &str, p: &str) -> (r: bool)
    ensures
        r == has_prefix(s@, p@),
{
    let x = chars_of(s);
    let y = chars_of(p);
    starts_with(x.as_slice(), y.as_slice())
}

pub fn text_contains(s: &str, p: &str) -> (r: bool)
    ensures
        r == occurs(s@, p@),
{
    let x = chars_of(s);
    let y = chars_of(p);
    if x.len() < y.len() {
        return false;
    }
    let n: usize = x.len();
    let last: usize = n - y.len();
    let mut i: usize = 0;
    while i <= last
        invariant
            n == x@.len(),
            x@ == s@,
            y@ == p@,
            y@.len() <= x@.len(),
            last == x@.len() - y@.len(),
            i <= last + 1,
            forall|j: int| 0 <= j < i ==> !occurs_at(s@, p@, j),
        decreases last + 1 - i,
    {
        if same_chars(slice_subrange(x.as_slice(), i, i + y.len()), y.as_slice()) {
            proof {
                assert(occurs_at(s@, p@, i as int));
            }
            return true;
        }
        if i == last {
            proof {
                assert forall|j: int| !occurs_at(s@, p@, j) by {
                    if 0 <= j < i {
                    }
                }
            }
            return false;
        }
        i += 1;
    }
    false
}

/// The slice behind position `from`.
pub fn tail(s: &[char], from: usize) -> (r: &[char])
    requires
        from <= s@.len(),
    ensures
        r@ == s@.skip(from as int),
{
    proof {
        assert(s@.skip(from as int) =~= s@.subrange(from as int, s@.len() as int));
    }
    slice_subrange(s, from, s.len())
}

/// The slice before position `to`.
pub fn head(s: &[char], to: usize) -> (r: &[char])
    requires
        to <= s@.len(),
    ensures
        r@ == s@.take(to as int),
{
    proof {
        assert(s@.take(to as int) =~= s@.subrange(0, to as int));
    }
    slice_subrange(s, 0, to)
}

/// What is behind the prefix `p`, where `s` starts with it.
pub fn strip_prefix<'a>(s: &'a [char], p: &str) -> (r: Option<&'a [char]>)
    ensures
        match r {
            Some(t) => has_prefix(s@, p@) && t@ == s@.skip(p@.len() as int),
            None => !has_prefix(s@, p@),
        },
{
    let q = chars_of(p);
    if starts_with(s, q.as_slice()) {
        Some(tail(s, q.len()))
    } else {
        None
    }
}

// ---------------------------------------------------------------------------
// Trimming
// ---------------------------------------------------------------------------

/// `s` without the white space at its start.
pub open spec fn trim_start(s: Seq<char>) -> Seq<char>
    decreases s.len(),
{
    if s.len() > 0 && is_space(s[0]) {
        trim_start(s.skip(1))
    } else {
        s
    }
}

/// `s` without the white space at its end.
pub open spec fn trim_end(s: Seq<char>) -> Seq<char>
    decreases s.len(),
{
    if s.len() > 0 && is_space(s.last()) {
        trim_end(s.drop_last())
    } else {
        s
    }
}

/// `s` without the white space at its start and its end.
pub open spec fn trim(s: Seq<char>) -> Seq<char> {
    trim_end(trim_start(s))
}

/// `s` without the run of `c` at its end.
pub open spec fn trim_end_of(s: Seq<char>, c: char) -> Seq<char>
    decreases s.len(),
{
    if s.len() > 0 && s.last() == c {
        trim_end_of(s.drop_last(), c)
    } else {
        s
    }
}

pub fn trim_chars(s: &[char]) -> (r: &[char])
    ensures
        r@ == trim(s@),
{
    let mut i: usize = 0;
    proof {
        assert(s@.skip(0) =~= s@);
    }
    while i < s.len() && char_is_space(s[i])
        invariant
            i <= s@.len(),
            trim_start(s@) == trim_start(s@.skip(i as int)),
        decreases s@.len() - i,
    {
        proof {
            assert(s@.skip(i as int).skip(1) =~= s@.skip(i as int + 1));
        }
        i += 1;
    }
    let t = tail(s, i);
    let mut k: usize = t.len();
    proof {
        assert(t@.take(k as int) =~= t@);
    }
    while k > 0 && char_is_space(t[k - 1])
        invariant
            k <= t@.len(),
            trim_end(t@) == trim_end(t@.take(k as int)),
        decreases k,
    {
        proof {
            assert(t@.take(k as int).drop_last() =~= t@.take(k - 1));
        }
        k -= 1;
    }
    head(t, k)
}

pub fn trim_end_char(s: &[char], c: char) -> (r: &[char])
    ensures
        r@ == trim_end_of(s@, c),
{
    let mut k: usize = s.len();
    proof {
        assert(s@.take(k as int) =~= s@);
    }
    while k > 0 && s[k - 1] == c
        invariant
            k <= s@.len(),
            trim_end_of(s@, c) == trim_end_of(s@.take(k as int), c),
        decreases k,
    {
        proof {
            assert(s@.take(k as int).drop_last() =~= s@.take(k - 1));
        }
        k -= 1;
    }
    head(s, k)
}

// ---------------------------------------------------------------------------
// Splitting
// ---------------------------------------------------------------------------

/// The views of a sequence of strings.
pub open spec fn texts(v: Seq<String>) -> Seq<Seq<char>> {
    v.map_values(|s: String| s@)
}

/// The view of a string that may be missing.
pub open spec fn opt_text(s: Option<String>) -> Option<Seq<char>> {
    match s {
        Some(t) => Some(t@),
        None => None,
    }
}

pub fn clone_opt(s: &Option<String>) -> (r: Option<String>)
    ensures
        r == *s,
{
    match s {
        Some(t) => Some(t.clone()),
        None => None,
    }
}

/// The view of a string slice that may be missing.
pub open spec fn opt_str(s: Option<&str>) -> Option<Seq<char>> {
    match s {
        Some(t) => Some(t@),
        None => None,
    }
}

pub fn own(s: Option<&str>) -> (r: Option<String>)
    ensures
        opt_text(r) == opt_str(s),
{
    match s {
        Some(t) => Some(t.to_owned()),
        None => None,
    }
}

/// The pieces of `s` between the separators: one more than there are separators.
pub open spec fn split(s: Seq<char>, sep: char) -> Seq<Seq<char>>
    decreases s.len(),
{
    let i = first_index(s, sep);
    if 0 <= i < s.len() {
        seq![s.take(i)] + split(s.skip(i + 1), sep)
    } else {
        seq![s]
    }
}

/// The pieces of `s`, of which the last, once `n` are reached, holds the rest unsplit.
pub open spec fn splitn(s: Seq<char>, n: nat, sep: char) -> Seq<Seq<char>>
    decreases n,
{
    let i = first_index(s, sep);
    if n == 0 {
        seq![]
    } else if n > 1 && 0 <= i < s.len() {
        seq![s.take(i)] + splitn(s.skip(i + 1), (n - 1) as nat, sep)
    } else {
        seq![s]
    }
}

/// A line without the carriage return that ends it.
pub open spec fn strip_cr(s: Seq<char>) -> Seq<char> {
    if s.len() > 0 && s.last() == '\r' {
        s.drop_last()
    } else {
        s
    }
}

/// The lines of `s`. A line ends with a line feed, or a carriage return and a line feed;
/// the last may end with the text.
pub open spec fn lines(s: Seq<char>) -> Seq<Seq<char>>
    decreases s.len(),
{
    let i = first_index(s, '\n');
    if s.len() == 0 {
        seq![]
    } else if 0 <= i < s.len() {
        seq![strip_cr(s.take(i))] + lines(s.skip(i + 1))
    } else {
        seq![s]
    }
}

/// Two texts joined by the separator split into the pieces of the one and then of the other.
pub proof fn lemma_split_joined(a: Seq<char>, b: Seq<char>, sep: char)
    ensures
        split(a + seq![sep] + b, sep) == split(a, sep) + split(b, sep),
    decreases a.len(),
{
    let s = a + seq![sep] + b;
    let i = first_index(a, sep);
    lemma_first_index_props(a, sep);
    assert forall|j: int| 0 <= j < i implies s[j] != sep by {
        assert(s[j] == a[j]);
    }
    if i < a.len() {
        assert(s[i] == a[i]);
        lemma_first_index(s, sep, i);
        lemma_split_joined(a.skip(i + 1), b, sep);
        assert(s.skip(i + 1) =~= a.skip(i + 1) + seq![sep] + b);
        assert(s.take(i) =~= a.take(i));
        assert(split(s, sep) =~= split(a, sep) + split(b, sep));
    } else {
        assert(s[i] == sep);
        lemma_first_index(s, sep, i);
        assert(s.take(i) =~= a);
        assert(s.skip(i + 1) =~= b);
        assert(split(s, sep) =~= split(a, sep) + split(b, sep));
    }
}

/// Text without a separator, put behind another, belongs to the last piece of that other.
pub proof fn lemma_split_extended(a: Seq<char>, b: Seq<char>, sep: char)
    requires
        !b.contains(sep),
    ensures
        split(a, sep).len() > 0,
        split(a + b, sep) == split(a, sep).drop_last().push(split(a, sep).last() + b),
    decreases a.len(),
{
    let s = a + b;
    let i = first_index(a, sep);
    lemma_first_index_props(a, sep);
    assert forall|j: int| 0 <= j < i implies s[j] != sep by {
        assert(s[j] == a[j]);
    }
    if i < a.len() {
        assert(s[i] == a[i]);
        lemma_first_index(s, sep, i);
        let rest = a.skip(i + 1);
        lemma_split_extended(rest, b, sep);
        assert(s.skip(i + 1) =~= rest + b);
        assert(s.take(i) =~= a.take(i));
        assert(split(a, sep) =~= seq![a.take(i)] + split(rest, sep));
        assert(split(a, sep).drop_last() =~= seq![a.take(i)] + split(rest, sep).drop_last());
        assert(split(s, sep) =~= split(a, sep).drop_last().push(split(a, sep).last() + b));
    } else {
        assert forall|j: int| 0 <= j < s.len() implies s[j] != sep by {
            if j >= a.len() {
                assert(s[j] == b[j - a.len()]);
            }
        }
        lemma_first_index(s, sep, s.len() as int);
        assert(split(a, sep).drop_last() =~= seq![]);
        assert(split(s, sep) =~= seq![].push(a + b));
    }
}

pub fn split_chars(s: &[char], sep: char) -> (r: Vec<String>)
    ensures
        texts(r@) == split(s@, sep),
        r@.len() >= 1,
{
    let mut out: Vec<String> = Vec::new();
    let mut rest = s;
    proof {
        assert(texts(out@) + split(rest@, sep) =~= split(s@, sep));
    }
    loop
        invariant
            texts(out@) + split(rest@, sep) == split(s@, sep),
        decreases rest@.len(),
    {
        let i = find_char(rest, sep);
        let ghost before = out@;
        if i < rest.len() {
            out.push(string_of(head(rest, i)));
            let next = tail(rest, i + 1);
            proof {
                assert(texts(out@) =~= texts(before).push(rest@.take(i as int)));
                assert(texts(out@) + split(next@, sep) =~= texts(before) + split(rest@, sep));
            }
            rest = next;
        } else {
            out.push(string_of(rest));
            proof {
                assert(texts(out@) =~= texts(before) + split(rest@, sep));
            }
            return out;
        }
    }
}

pub fn splitn_chars(s: &[char], n: usize, sep: char) -> (r: Vec<String>)
    ensures
        texts(r@) == splitn(s@, n as nat, sep),
        r@.len() <= n,
{
    let mut out: Vec<String> = Vec::new();
    let mut rest = s;
    let mut left: usize = n;
    proof {
        assert(texts(out@) + splitn(rest@, left as nat, sep) =~= splitn(s@, n as nat, sep));
    }
    while left > 0
        invariant
            texts(out@) + splitn(rest@, left as nat, sep) == splitn(s@, n as nat, sep),
            out@.len() + left <= n,
        decreases left,
    {
        let i = find_char(rest, sep);
        let ghost before = out@;
        if left > 1 && i < rest.len() {
            out.push(string_of(head(rest, i)));
            let next = tail(rest, i + 1);
            proof {
                assert(texts(out@) =~= texts(before).push(rest@.take(i as int)));
                assert(texts(out@) + splitn(next@, (left - 1) as nat, sep) =~= texts(before)
                    + splitn(rest@, left as nat, sep));
            }
            rest = next;
            left -= 1;
        } else {
            out.push(string_of(rest));
            proof {
                assert(texts(out@) =~= texts(before) + splitn(rest@, left as nat, sep));
            }
            return out;
        }
    }
    proof {
        assert(texts(out@) =~= splitn(s@, n as nat, sep));
    }
    out
}

pub fn lines_of(s: &[char]) -> (r: Vec<String>)
    ensures
        texts(r@) == lines(s@),
{
    let mut out: Vec<String> = Vec::new();
    let mut rest = s;
    proof {
        assert(texts(out@) + lines(rest@) =~= lines(s@));
    }
    while rest.len() > 0
        invariant
            texts(out@) + lines(rest@) == lines(s@),
        decreases rest@.len(),
    {
        let i = find_char(rest, '\n');
        let ghost before = out@;
        if i < rest.len() {
            let line = head(rest, i);
            if line.len() > 0 && line[line.len() - 1] == '\r' {
                let cut = head(line, line.len() - 1);
                proof {
                    assert(cut@ =~= line@.drop_last());
                }
                out.push(string_of(cut));
            } else {
                out.push(string_of(line));
            }
            let next = tail(rest, i + 1);
            proof {
                assert(texts(out@) =~= texts(before).push(strip_cr(rest@.take(i as int))));
                assert(texts(out@) + lines(next@) =~= texts(before) + lines(rest@));
            }
            rest = next;
        } else {
            out.push(string_of(rest));
            proof {
                assert(texts(out@) =~= texts(before) + lines(rest@));
            }
            return out;
        }
    }
    proof {
        assert(texts(out@) =~= lines(s@));
    }
    out
}

// ---------------------------------------------------------------------------
// Numbers
// ---------------------------------------------------------------------------

pub open spec fn digit(d: nat) -> char {
    (48 + d) as char
}

/// `n` in decimal, without leading zeros.
pub open spec fn dec(n: nat) -> Seq<char>
    decreases n,
{
    if n < 10 {
        seq![digit(n)]
    } else {
        dec(n / 10).push(digit(n % 10))
    }
}

/// An integer in decimal, with a minus sign where it is negative.
pub open spec fn dec_int(n: int) -> Seq<char> {
    if n < 0 {
        seq!['-'] + dec((-n) as nat)
    } else {
        dec(n as nat)
    }
}

/// The number that a sequence of decimal digits denotes.
pub open spec fn dec_value(s: Seq<char>) -> nat
    decreases s.len(),
{
    if s.len() == 0 {
        0
    } else {
        dec_value(s.drop_last()) * 10 + ((s.last() as nat) - 48) as nat
    }
}

pub open spec fn all_digits(s: Seq<char>) -> bool {
    forall|i: int| 0 <= i < s.len() ==> is_digit(#[trigger] s[i])
}

/// A number without its leading plus sign.
pub open spec fn unsigned(s: Seq<char>) -> Seq<char> {
    if s.len() > 0 && s[0] == '+' {
        s.skip(1)
    } else {
        s
    }
}

/// The number up to `max` that `s` denotes: decimal digits behind an optional plus sign.
pub open spec fn parse_dec(s: Seq<char>, max: nat) -> Option<nat> {
    let d = unsigned(s);
    if d.len() > 0 && all_digits(d) && dec_value(d) <= max {
        Some(dec_value(d))
    } else {
        None
    }
}

pub fn digit_char(d: u8) -> (r: char)
    requires
        d < 10,
    ensures
        r == digit(d as nat),
{
    (48 + d) as char
}

/// `n` in decimal.
pub fn u64_text(n: u64) -> (r: String)
    ensures
        r@ == dec(n as nat),
    decreases n,
{
    if n < 10 {
        let mut s = String::new();
        s.push(digit_char(n as u8));
        proof {
            assert(s@ =~= dec(n as nat));
        }
        s
    } else {
        let mut s = u64_text(n / 10);
        s.push(digit_char((n % 10) as u8));
        s
    }
}

pub fn usize_text(n: usize) -> (r: String)
    ensures
        r@ == dec(n as nat),
{
    u64_text(n as u64)
}

/// `n` in decimal, with its sign.
pub fn i64_text(n: i64) -> (r: String)
    ensures
        r@ == dec_int(n as int),
{
    if n >= 0 {
        u64_text(n as u64)
    } else {
        let m: u64 = if n == i64::MIN {
            0x8000_0000_0000_0000
        } else {
            (-n) as u64
        };
        let mut s = String::new();
        s.push('-');
        s.append(u64_text(m).as_str());
        proof {
            assert(s@ =~= dec_int(n as int));
        }
        s
    }
}

/// Reading more digits never makes the number smaller.
proof fn lemma_dec_value_grows(s: Seq<char>, k: int)
    requires
        0 <= k <= s.len(),
    ensures
        dec_value(s.take(k)) <= dec_value(s),
    decreases s.len() - k,
{
    if k < s.len() {
        lemma_dec_value_grows(s, k + 1);
        assert(s.take(k + 1).drop_last() =~= s.take(k));
        assert(dec_value(s.take(k)) <= dec_value(s.take(k)) * 10);
    } else {
        assert(s.take(k) =~= s);
    }
}

/// The number up to `max` that `s` denotes.
pub fn parse_u64_max(s: &[char], max: u64) -> (r: Option<u64>)
    ensures
        match r {
            Some(n) => parse_dec(s@, max as nat) == Some(n as nat),
            None => parse_dec(s@, max as nat) is None,
        },
{
    let d = if s.len() > 0 && s[0] == '+' {
        tail(s, 1)
    } else {
        s
    };
    proof {
        assert(d@ == unsigned(s@));
    }
    if d.len() == 0 {
        return None;
    }
    let mut n: u64 = 0;
    let mut i: usize = 0;
    while i < d.len()
        invariant
            i <= d@.len(),
            d@ == unsigned(s@),
            d@.len() > 0,
            forall|j: int| 0 <= j < i ==> is_digit(#[trigger] d@[j]),
            n == dec_value(d@.take(i as int)),
            n <= max,
        decreases d@.len() - i,
    {
        let c = d[i];
        if c < '0' || c > '9' {
            proof {
                assert(!is_digit(d@[i as int]));
            }
            return None;
        }
        let v: u64 = (c as u32 - 48) as u64;
        proof {
            assert(d@.take(i as int + 1).drop_last() =~= d@.take(i as int));
            lemma_dec_value_grows(d@, i as int + 1);
        }
        if v > max || n > max / 10 || n * 10 > max - v {
            proof {
                assert(dec_value(d@.take(i as int + 1)) == n * 10 + v);
                assert(n * 10 + v > max);
            }
            return None;
        }
        n = n * 10 + v;
        i += 1;
    }
    proof {
        assert(d@.take(i as int) =~= d@);
    }
    Some(n)
}

/// `str::parse::<u64>`.
pub fn parse_u64(s: &str) -> (r: Option<u64>)
    ensures
        match r {
            Some(n) => parse_dec(s@, u64::MAX as nat) == Some(n as nat),
            None => parse_dec(s@, u64::MAX as nat) is None,
        },
{
    let v = chars_of(s);
    parse_u64_max(v.as_slice(), u64::MAX)
}

// ---------------------------------------------------------------------------
// Hexadecimal
// ---------------------------------------------------------------------------

/// The lower-case hexadecimal digit of `d`.
pub open spec fn hex_digit(d: nat) -> char {
    if d < 10 {
        (48 + d) as char
    } else {
        (87 + d) as char
    }
}

/// Two lower-case hexadecimal digits for each byte.
pub open spec fn hex(b: Seq<u8>) -> Seq<char>
    decreases b.len(),
{
    if b.len() == 0 {
        seq![]
    } else {
        hex(b.drop_last()).push(hex_digit((b.last() / 16) as nat)).push(
            hex_digit((b.last() % 16) as nat),
        )
    }
}

/// A byte takes two lower-case hexadecimal digits.
pub proof fn lemma_hex_digits(b: Seq<u8>)
    ensures
        hex(b).len() == 2 * b.len(),
        forall|i: int|
            0 <= i < hex(b).len() ==> {
                let c = #[trigger] hex(b)[i];
                '0' <= c <= '9' || 'a' <= c <= 'f'
            },
    decreases b.len(),
{
    if b.len() > 0 {
        let front = hex(b.drop_last());
        lemma_hex_digits(b.drop_last());
        assert forall|i: int| 0 <= i < hex(b).len() implies {
            let c = #[trigger] hex(b)[i];
            '0' <= c <= '9' || 'a' <= c <= 'f'
        } by {
            if i < front.len() {
                assert(hex(b)[i] == front[i]);
            }
        }
    }
}

pub fn hex_char(d: u8) -> (r: char)
    requires
        d < 16,
    ensures
        r == hex_digit(d as nat),
{
    if d < 10 {
        (48 + d) as char
    } else {
        (87 + d) as char
    }
}

pub fn hex_text(b: &[u8]) -> (r: String)
    ensures
        r@ == hex(b@),
{
    let mut s = String::new();
    let mut i: usize = 0;
    while i < b.len()
        invariant
            i <= b@.len(),
            s@ == hex(b@.take(i as int)),
        decreases b@.len() - i,
    {
        s.push(hex_char(b[i] / 16));
        s.push(hex_char(b[i] % 16));
        proof {
            assert(b@.take(i as int + 1).drop_last() =~= b@.take(i as int));
        }
        i += 1;
    }
    proof {
        assert(b@.take(i as int) =~= b@);
    }
    s
}

/// `n` in lower-case hexadecimal, without leading zeros.
pub open spec fn hex_nat(n: nat) -> Seq<char>
    decreases n,
{
    if n < 16 {
        seq![hex_digit(n)]
    } else {
        hex_nat(n / 16).push(hex_digit(n % 16))
    }
}

/// `s` with zeros in front of it up to the given width.
pub open spec fn zero_padded(s: Seq<char>, width: nat) -> Seq<char>
    decreases width - s.len(),
{
    if s.len() < width {
        zero_padded(seq!['0'] + s, width)
    } else {
        s
    }
}

pub fn hex_u128_text(n: u128) -> (r: String)
    ensures
        r@ == hex_nat(n as nat),
    decreases n,
{
    if n < 16 {
        let mut s = String::new();
        s.push(hex_char(n as u8));
        proof {
            assert(s@ =~= hex_nat(n as nat));
        }
        s
    } else {
        let mut s = hex_u128_text(n / 16);
        s.push(hex_char((n % 16) as u8));
        s
    }
}

pub fn zero_pad(s: String, width: usize) -> (r: String)
    ensures
        r@ == zero_padded(s@, width as nat),
{
    let ghost whole = s@;
    let mut t = s;
    let mut n = chars_of(t.as_str()).len();
    while n < width
        invariant
            n == t@.len(),
            zero_padded(t@, width as nat) == zero_padded(whole, width as nat),
        decreases width - n,
    {
        let mut u = String::new();
        u.push('0');
        u.append(t.as_str());
        proof {
            assert(u@ =~= seq!['0'] + t@);
        }
        t = u;
        n += 1;
    }
    t
}

/// Appends bytes to a buffer.
pub fn push_bytes(out: &mut Vec<u8>, b: &[u8])
    ensures
        final(out)@ == old(out)@ + b@,
{
    let ghost start = out@;
    let mut i: usize = 0;
    while i < b.len()
        invariant
            i <= b@.len(),
            out@ == start + b@.take(i as int),
        decreases b@.len() - i,
    {
        out.push(b[i]);
        proof {
            assert(b@.take(i as int + 1) =~= b@.take(i as int).push(b@[i as int]));
            assert(out@ =~= start + b@.take(i as int + 1));
        }
        i += 1;
    }
    proof {
        assert(b@.take(i as int) =~= b@);
    }
}

/// What a text begins with, ends with and holds: a text that is put together of parts begins with the
/// first, ends with the last and holds the middle one, and a text that begins with something is that
/// and the rest.
pub proof fn law_parts_of_a_text(a: Seq<char>, b: Seq<char>, c: Seq<char>, s: Seq<char>)
    ensures
        has_prefix(a + b, a),
        has_suffix(a + b, b),
        occurs(a + b + c, b),
        has_prefix(s, a) ==> s == a + s.skip(a.len() as int),
        has_suffix(s, b) ==> s == s.take(s.len() - b.len()) + b,
        occurs(s, b) ==> exists|i: int|
            0 <= i <= s.len() - b.len() && #[trigger] s.skip(i).take(b.len() as int) == b,
{
    assert((a + b).take(a.len() as int) =~= a);
    assert((a + b).skip(a.len() as int) =~= b);
    let t = a + b + c;
    assert(t.subrange(a.len() as int, (a.len() + b.len()) as int) =~= b);
    assert(occurs_at(t, b, a.len() as int));
    if has_prefix(s, a) {
        assert(s =~= s.take(a.len() as int) + s.skip(a.len() as int));
    }
    if has_suffix(s, b) {
        assert(s =~= s.take(s.len() - b.len()) + s.skip(s.len() - b.len()));
    }
    if occurs(s, b) {
        let i = choose|i: int| occurs_at(s, b, i);
        assert(s.skip(i).take(b.len() as int) =~= s.subrange(i, i + b.len()));
    }
}

/// The pieces of a text hold no separator, and a text without separators is its only piece.
pub proof fn law_pieces_hold_no_separator(s: Seq<char>, sep: char)
    ensures
        forall|i: int| 0 <= i < split(s, sep).len() ==> !(#[trigger] split(s, sep)[i]).contains(sep),
        !s.contains(sep) ==> split(s, sep) == seq![s],
    decreases s.len(),
{
    lemma_first_index_props(s, sep);
    let i = first_index(s, sep);
    if i < s.len() {
        law_pieces_hold_no_separator(s.skip(i + 1), sep);
        assert(s.contains(s[i]));
        let rest = split(s.skip(i + 1), sep);
        assert forall|k: int| 0 <= k < split(s, sep).len() implies !(
        #[trigger] split(s, sep)[k]).contains(sep) by {
            if k == 0 {
                assert(split(s, sep)[0] == s.take(i));
                if s.take(i).contains(sep) {
                    let j = choose|j: int| 0 <= j < i && s.take(i)[j] == sep;
                    assert(s[j] == sep);
                }
            } else {
                assert(split(s, sep)[k] == rest[k - 1]);
            }
        }
    } else {
        assert(split(s, sep) == seq![s]);
        if s.contains(sep) {
            let j = choose|j: int| 0 <= j < s.len() && s[j] == sep;
            assert(s[j] != sep);
        }
    }
}

/// A text is cut into so many pieces at most, of which all but the last hold no separator; put
/// together again with separators between them they are the text.
pub proof fn law_limited_pieces(s: Seq<char>, head: Seq<char>, rest: Seq<char>, n: nat, sep: char)
    requires
        !head.contains(sep),
        n > 1,
    ensures
        splitn(s, n, sep).len() <= n,
        splitn(head + seq![sep] + rest, n, sep) == seq![head] + splitn(rest, (n - 1) as nat, sep),
        splitn(head, n, sep) == seq![head],
        splitn(s, 1, sep) == seq![s],
{
    lemma_splitn_len(s, n, sep);
    let t = head + seq![sep] + rest;
    let i = head.len() as int;
    assert forall|j: int| 0 <= j < i implies t[j] != sep by {
        assert(t[j] == head[j]);
        assert(head.contains(head[j]));
    }
    assert(t[i] == sep);
    lemma_first_index(t, sep, i);
    assert(t.take(i) =~= head);
    assert(t.skip(i + 1) =~= rest);
    assert forall|j: int| 0 <= j < i implies head[j] != sep by {
        assert(head.contains(head[j]));
    }
    lemma_first_index(head, sep, i);
}

proof fn lemma_splitn_len(s: Seq<char>, n: nat, sep: char)
    ensures
        splitn(s, n, sep).len() <= n,
    decreases n,
{
    let i = first_index(s, sep);
    if n > 1 && 0 <= i < s.len() {
        lemma_splitn_len(s.skip(i + 1), (n - 1) as nat, sep);
    }
}

/// A text is read line by line: a line is what stands before a line feed, without the carriage return
/// that may stand there too, and what follows is read in the same way.
pub proof fn law_text_is_read_line_by_line(line: Seq<char>, rest: Seq<char>)
    requires
        !line.contains('\n'),
    ensures
        line.len() == 0 || line.last() != '\r' ==> lines(line + seq!['\n'] + rest) == seq![line]
            + lines(rest),
        lines(line + seq!['\r', '\n'] + rest) == seq![line] + lines(rest),
        line.len() > 0 ==> lines(line) == seq![line],
        lines(seq![]).len() == 0,
{
    let a = line + seq!['\n'] + rest;
    let n = line.len() as int;
    assert forall|j: int| 0 <= j < n implies line[j] != '\n' by {
        assert(line.contains(line[j]));
    }
    assert forall|j: int| 0 <= j < n implies a[j] != '\n' by {
        assert(a[j] == line[j]);
    }
    assert(a[n] == '\n');
    lemma_first_index(a, '\n', n);
    assert(a.take(n) =~= line);
    assert(a.skip(n + 1) =~= rest);
    let b = line + seq!['\r', '\n'] + rest;
    assert forall|j: int| 0 <= j < n + 1 implies b[j] != '\n' by {
        if j < n {
            assert(b[j] == line[j]);
        }
    }
    assert(b[n + 1] == '\n');
    lemma_first_index(b, '\n', n + 1);
    assert(b.take(n + 1) =~= line.push('\r'));
    assert(line.push('\r').drop_last() =~= line);
    assert(b.skip(n + 2) =~= rest);
    lemma_first_index(line, '\n', n);
}

proof fn lemma_trim_start_of(space: Seq<char>, s: Seq<char>)
    requires
        forall|i: int| 0 <= i < space.len() ==> is_space(#[trigger] space[i]),
        s.len() > 0 ==> !is_space(s[0]),
    ensures
        trim_start(space + s) == s,
    decreases space.len(),
{
    let t = space + s;
    if space.len() == 0 {
        assert(t =~= s);
    } else {
        assert(t[0] == space[0]);
        assert(t.skip(1) =~= space.skip(1) + s);
        assert forall|i: int| 0 <= i < space.skip(1).len() implies is_space(
            #[trigger] space.skip(1)[i],
        ) by {
            assert(space.skip(1)[i] == space[i + 1]);
        }
        lemma_trim_start_of(space.skip(1), s);
    }
}

proof fn lemma_trim_end_after(s: Seq<char>, space: Seq<char>)
    requires
        forall|i: int| 0 <= i < space.len() ==> is_space(#[trigger] space[i]),
        s.len() > 0 ==> !is_space(s.last()),
    ensures
        trim_end(s + space) == s,
    decreases space.len(),
{
    let t = s + space;
    if space.len() == 0 {
        assert(t =~= s);
    } else {
        assert(t.last() == space[space.len() - 1]);
        assert(t.drop_last() =~= s + space.drop_last());
        assert forall|i: int| 0 <= i < space.drop_last().len() implies is_space(
            #[trigger] space.drop_last()[i],
        ) by {
            assert(space.drop_last()[i] == space[i]);
        }
        lemma_trim_end_after(s, space.drop_last());
    }
}

/// Trimming takes the white space off both ends of a text, all of it, and nothing else.
pub proof fn law_trimming_takes_white_space_off(before: Seq<char>, s: Seq<char>, after: Seq<char>)
    requires
        forall|i: int| 0 <= i < before.len() ==> is_space(#[trigger] before[i]),
        forall|i: int| 0 <= i < after.len() ==> is_space(#[trigger] after[i]),
        s.len() > 0,
        !is_space(s[0]),
        !is_space(s.last()),
    ensures
        trim(before + s + after) == s,
        trim_start(before + s) == s,
        trim_end(s + after) == s,
{
    let t = s + after;
    assert(before + s + after =~= before + t);
    assert(t[0] == s[0]);
    lemma_trim_start_of(before, t);
    lemma_trim_start_of(before, s);
    lemma_trim_end_after(s, after);
}

/// A run of one character at the end is taken off, all of it, and nothing else.
pub proof fn law_run_at_the_end_is_taken_off(s: Seq<char>, c: char, n: nat)
    requires
        s.len() > 0 ==> s.last() != c,
    ensures
        trim_end_of(s + Seq::new(n, |i: int| c), c) == s,
    decreases n,
{
    let t = s + Seq::new(n, |i: int| c);
    if n == 0 {
        assert(t =~= s);
    } else {
        law_run_at_the_end_is_taken_off(s, c, (n - 1) as nat);
        assert(t.last() == c);
        assert(t.drop_last() =~= s + Seq::new((n - 1) as nat, |i: int| c));
    }
}

/// White space is what Unicode calls so; of what is on a keyboard that is the blank, the tab and the
/// ends of lines, and no letter, digit or punctuation mark.
pub proof fn law_keyboard_white_space(c: char)
    ensures
        is_space(' ') && is_space('\t') && is_space('\n') && is_space('\r'),
        '!' <= c <= '~' ==> !is_space(c),
{
}

/// A number is written in decimal digits that say it, without zeros before them, and a number below
/// zero with a minus sign before those of its opposite.
pub proof fn law_numbers_are_written_in_decimal(n: nat)
    ensures
        dec(n).len() > 0,
        all_digits(dec(n)),
        dec_value(dec(n)) == n,
        n > 0 ==> dec(n)[0] != '0',
        n > 0 ==> dec_int(-n) == seq!['-'] + dec(n),
        dec_int(n as int) == dec(n),
    decreases n,
{
    let d = dec(n);
    if n < 10 {
        assert(d.drop_last() =~= seq![]);
        assert(dec_value(Seq::<char>::empty()) == 0);
        assert(is_digit(d[0]));
    } else {
        law_numbers_are_written_in_decimal(n / 10);
        assert(d.drop_last() =~= dec(n / 10));
        assert forall|i: int| 0 <= i < d.len() implies is_digit(#[trigger] d[i]) by {
            if i < d.len() - 1 {
                assert(d[i] == dec(n / 10)[i]);
            }
        }
        assert(d[0] == dec(n / 10)[0]);
    }
}

/// A number is read from its digits, with or without a plus sign before them, where it is not too
/// large; a text that holds anything else, or nothing, is no number.
pub proof fn law_numbers_are_read_back(n: nat, max: nat, s: Seq<char>, i: int)
    ensures
        n <= max ==> parse_dec(dec(n), max) == Some(n),
        n <= max ==> parse_dec(seq!['+'] + dec(n), max) == Some(n),
        n > max ==> parse_dec(dec(n), max) is None,
        0 < i < s.len() && !is_digit(s[i]) ==> parse_dec(s, max) is None,
        parse_dec(seq![], max) is None,
{
    law_numbers_are_written_in_decimal(n);
    let d = dec(n);
    assert(is_digit(d[0]));
    assert(unsigned(d) == d);
    assert((seq!['+'] + d).skip(1) =~= d);
    if 0 < i < s.len() && !is_digit(s[i]) {
        let u = unsigned(s);
        if s[0] == '+' {
            assert(u[i - 1] == s[i]);
        } else {
            assert(u[i] == s[i]);
        }
    }
}

/// Bytes that differ are written differently.
pub proof fn law_hexadecimal_tells_bytes_apart(a: Seq<u8>, b: Seq<u8>)
    ensures
        hex(a) == hex(b) ==> a == b,
        hex(a).len() == 2 * a.len(),
    decreases a.len(),
{
    lemma_hex_digits(a);
    lemma_hex_digits(b);
    if hex(a) == hex(b) {
        assert(a.len() == b.len());
        if a.len() > 0 {
            let ha = hex(a);
            let n = ha.len() as int;
            assert(hex(a.drop_last()) =~= ha.take(n - 2));
            assert(hex(b.drop_last()) =~= hex(b).take(n - 2));
            law_hexadecimal_tells_bytes_apart(a.drop_last(), b.drop_last());
            assert(ha[n - 2] == hex_digit((a.last() / 16) as nat));
            assert(ha[n - 1] == hex_digit((a.last() % 16) as nat));
            assert(hex(b)[n - 2] == hex_digit((b.last() / 16) as nat));
            assert(hex(b)[n - 1] == hex_digit((b.last() % 16) as nat));
            assert(a.last() == b.last());
            assert(a =~= a.drop_last().push(a.last()));
            assert(b =~= b.drop_last().push(b.last()));
        } else {
            assert(a =~= b);
        }
    }
}

/// What stands before a line feed and what stands behind it are cut into lines on their own.
pub proof fn lemma_ended_line(line: Seq<char>, rest: Seq<char>)
    ensures
        split(line + seq!['\n'] + rest, '\n') == split(line, '\n') + split(rest, '\n'),
        split(Seq::<char>::empty(), '\n') == seq![Seq::<char>::empty()],
{
    lemma_split_joined(line, rest, '\n');
    assert(split(Seq::<char>::empty(), '\n') =~= seq![Seq::<char>::empty()]);
}

/// A list says in contracts what its items say, one for one and in their order, and a value that may
/// be missing what it says where it is there.
pub proof fn law_items_are_read_one_for_one(v: Seq<String>, x0: String, x1: &str)
    ensures
        texts(v).len() == v.len(),
        forall|i: int| 0 <= i < v.len() ==> #[trigger] texts(v)[i] == v[i]@,
        opt_text(Some(x0)) == Some(x0@),
        opt_text(None) is None,
        opt_str(Some(x1)) == Some(x1@),
        opt_str(None) is None,
{
}

} // verus!
