//! Text handling over sequences of characters: whitespace, trimming, splitting,
//! searching, and decimal/hexadecimal rendering, each with its specification.

use vstd::prelude::*;

verus! {

broadcast use vstd::string::group_string_axioms;

// ---------------------------------------------------------------------------
// Specifications
// ---------------------------------------------------------------------------

/// Unicode `White_Space` (the set `char::is_whitespace`, `str::trim` and
/// `str::split_whitespace` use).
pub open spec fn is_ws(c: char) -> bool {
    let u = c as u32;
    ||| 0x09 <= u <= 0x0d
    ||| u == 0x20
    ||| u == 0x85
    ||| u == 0xa0
    ||| u == 0x1680
    ||| 0x2000 <= u <= 0x200a
    ||| u == 0x2028
    ||| u == 0x2029
    ||| u == 0x202f
    ||| u == 0x205f
    ||| u == 0x3000
}

/// `s` without its leading whitespace.
pub open spec fn trim_start(s: Seq<char>) -> Seq<char>
    decreases s.len(),
{
    if s.len() > 0 && is_ws(s[0]) {
        trim_start(s.drop_first())
    } else {
        s
    }
}

/// `s` without its trailing whitespace.
pub open spec fn trim_end(s: Seq<char>) -> Seq<char>
    decreases s.len(),
{
    if s.len() > 0 && is_ws(s.last()) {
        trim_end(s.drop_last())
    } else {
        s
    }
}

/// `s` without leading and trailing whitespace.
pub open spec fn trim(s: Seq<char>) -> Seq<char> {
    trim_end(trim_start(s))
}

/// The pieces of `s` between occurrences of `sep` (always at least one piece).
pub open spec fn split_on(s: Seq<char>, sep: char) -> Seq<Seq<char>>
    decreases s.len(),
{
    if s.len() == 0 {
        seq![Seq::<char>::empty()]
    } else {
        let rest = split_on(s.drop_last(), sep);
        if s.last() == sep {
            rest.push(Seq::<char>::empty())
        } else {
            rest.update(rest.len() - 1, rest.last().push(s.last()))
        }
    }
}

/// The pieces of `s` between whitespace characters (at least one piece).
pub open spec fn split_ws(s: Seq<char>) -> Seq<Seq<char>>
    decreases s.len(),
{
    if s.len() == 0 {
        seq![Seq::<char>::empty()]
    } else {
        let rest = split_ws(s.drop_last());
        if is_ws(s.last()) {
            rest.push(Seq::<char>::empty())
        } else {
            rest.update(rest.len() - 1, rest.last().push(s.last()))
        }
    }
}

/// The non-empty members of `parts`, in order.
pub open spec fn nonempty_only(parts: Seq<Seq<char>>) -> Seq<Seq<char>>
    decreases parts.len(),
{
    if parts.len() == 0 {
        Seq::empty()
    } else if parts.last().len() == 0 {
        nonempty_only(parts.drop_last())
    } else {
        nonempty_only(parts.drop_last()).push(parts.last())
    }
}

/// The whitespace-separated words of `s` (`str::split_whitespace`).
pub open spec fn words(s: Seq<char>) -> Seq<Seq<char>> {
    nonempty_only(split_ws(s))
}

/// `s` begins with `p`.
pub open spec fn starts_with(s: Seq<char>, p: Seq<char>) -> bool {
    p.len() <= s.len() && s.subrange(0, p.len() as int) == p
}

/// `s` ends with `p`.
pub open spec fn ends_with(s: Seq<char>, p: Seq<char>) -> bool {
    p.len() <= s.len() && s.subrange(s.len() - p.len(), s.len() as int) == p
}

/// `p` occurs in `s` starting at position `i`.
pub open spec fn occurs_at(s: Seq<char>, p: Seq<char>, i: int) -> bool {
    0 <= i && i + p.len() <= s.len() && s.subrange(i, i + p.len()) == p
}

/// `p` occurs somewhere in `s`.
pub open spec fn contains(s: Seq<char>, p: Seq<char>) -> bool {
    exists|i: int| occurs_at(s, p, i)
}

/// `c` occurs in `s`.
pub open spec fn has_char(s: Seq<char>, c: char) -> bool {
    exists|i: int| 0 <= i < s.len() && s[i] == c
}

/// The position of the first `c` in `s`.
pub open spec fn first_index(s: Seq<char>, c: char) -> int
    recommends
        has_char(s, c),
{
    choose|i: int| 0 <= i < s.len() && s[i] == c && forall|j: int| 0 <= j < i ==> s[j] != c
}

/// `str::split_once`: the text before and after the first `c`.
pub open spec fn split_once(s: Seq<char>, c: char) -> Option<(Seq<char>, Seq<char>)> {
    if has_char(s, c) {
        let i = first_index(s, c);
        Some((s.subrange(0, i), s.subrange(i + 1, s.len() as int)))
    } else {
        None
    }
}

/// The position of the last `c` in `s`.
pub open spec fn last_index(s: Seq<char>, c: char) -> int
    recommends
        has_char(s, c),
{
    choose|i: int| 0 <= i < s.len() && s[i] == c && forall|j: int| i < j < s.len() ==> s[j] != c
}

/// `str::rsplit_once`: the text before and after the last `c`.
pub open spec fn rsplit_once(s: Seq<char>, c: char) -> Option<(Seq<char>, Seq<char>)> {
    if has_char(s, c) {
        let i = last_index(s, c);
        Some((s.subrange(0, i), s.subrange(i + 1, s.len() as int)))
    } else {
        None
    }
}

/// `c` is one of the ASCII digits `0`..`9`.
pub open spec fn is_digit(c: char) -> bool {
    '0' <= c <= '9'
}

/// Every character of `s` is an ASCII digit.
pub open spec fn all_digits(s: Seq<char>) -> bool {
    forall|i: int| 0 <= i < s.len() ==> is_digit(#[trigger] s[i])
}

/// The value of an ASCII digit.
pub open spec fn digit_value(c: char) -> nat {
    ((c as u32) - ('0' as u32)) as nat
}

/// The value of a run of ASCII digits, most significant first.
pub open spec fn digits_value(s: Seq<char>) -> nat
    decreases s.len(),
{
    if s.len() == 0 {
        0
    } else {
        digits_value(s.drop_last()) * 10 + digit_value(s.last())
    }
}

/// The ASCII digit for a value below ten.
pub open spec fn digit_char(d: nat) -> char {
    if d == 0 {
        '0'
    } else if d == 1 {
        '1'
    } else if d == 2 {
        '2'
    } else if d == 3 {
        '3'
    } else if d == 4 {
        '4'
    } else if d == 5 {
        '5'
    } else if d == 6 {
        '6'
    } else if d == 7 {
        '7'
    } else if d == 8 {
        '8'
    } else {
        '9'
    }
}

/// The decimal rendering of `n` (no leading zeros; `0` is "0").
pub open spec fn dec(n: nat) -> Seq<char>
    decreases n,
{
    if n < 10 {
        seq![digit_char(n)]
    } else {
        dec(n / 10).push(digit_char(n % 10))
    }
}

/// The decimal rendering of a signed integer.
pub open spec fn dec_int(n: int) -> Seq<char> {
    if n < 0 {
        seq!['-'] + dec((-n) as nat)
    } else {
        dec(n as nat)
    }
}

/// The upper-case hexadecimal digit for a value below sixteen.
pub open spec fn hex_digit(d: u8) -> char {
    if d < 10 {
        digit_char(d as nat)
    } else if d == 10 {
        'A'
    } else if d == 11 {
        'B'
    } else if d == 12 {
        'C'
    } else if d == 13 {
        'D'
    } else if d == 14 {
        'E'
    } else {
        'F'
    }
}

/// A byte as two upper-case hexadecimal digits (`{:02X}`).
pub open spec fn hex_byte(b: u8) -> Seq<char> {
    seq![hex_digit(b / 16), hex_digit(b % 16)]
}

// ---------------------------------------------------------------------------
// Lemmas
// ---------------------------------------------------------------------------

pub proof fn lemma_split_on_nonempty(s: Seq<char>, sep: char)
    ensures
        split_on(s, sep).len() >= 1,
    decreases s.len(),
{
    if s.len() > 0 {
        lemma_split_on_nonempty(s.drop_last(), sep);
    }
}

pub proof fn lemma_split_ws_nonempty(s: Seq<char>)
    ensures
        split_ws(s).len() >= 1,
    decreases s.len(),
{
    if s.len() > 0 {
        lemma_split_ws_nonempty(s.drop_last());
    }
}

// ---------------------------------------------------------------------------
// Executable helpers
// ---------------------------------------------------------------------------

/// Appends one character to a string (`String::push`).
#[verifier::external_body]
pub(crate) fn push_char(s: &mut String, c: char)
    ensures
        final(s)@ == old(s)@.push(c),
{
    s.push(c);
}

/// The characters of a string slice.
pub fn chars_of(s: &str) -> (v: Vec<char>)
    ensures
        v@ == s@,
{
    let mut v: Vec<char> = Vec::new();
    for c in it: s.chars()
        invariant
            v@ == it.seq().take(it.index() as int),
    {
        v.push(c);
    }
    v
}

/// Appends every character of `cs` to `s`.
pub fn push_chars(s: &mut String, cs: &[char])
    ensures
        final(s)@ == old(s)@ + cs@,
{
    let mut i: usize = 0;
    while i < cs.len()
        invariant
            i <= cs@.len(),
            s@ == old(s)@ + cs@.subrange(0, i as int),
        decreases cs@.len() - i,
    {
        push_char(s, cs[i]);
        i = i + 1;
        assert(cs@.subrange(0, i as int) =~= cs@.subrange(0, i - 1) + seq![cs@[i - 1]]);
    }
    assert(cs@.subrange(0, cs@.len() as int) =~= cs@);
}

/// A string made of the characters of `cs`.
pub fn string_of(cs: &[char]) -> (s: String)
    ensures
        s@ == cs@,
{
    let mut s = String::new();
    push_chars(&mut s, cs);
    assert(s@ =~= cs@);
    s
}

/// Whether two character runs are equal.
pub fn chars_eq(a: &[char], b: &[char]) -> (r: bool)
    ensures
        r == (a@ == b@),
{
    if a.len() != b.len() {
        return false;
    }
    let mut i: usize = 0;
    while i < a.len()
        invariant
            a@.len() == b@.len(),
            i <= a@.len(),
            forall|j: int| 0 <= j < i ==> a@[j] == b@[j],
        decreases a@.len() - i,
    {
        if a[i] != b[i] {
            return false;
        }
        i = i + 1;
    }
    assert(a@ =~= b@);
    true
}

/// Whether a character is Unicode whitespace.
pub fn is_whitespace(c: char) -> (r: bool)
    ensures
        r == is_ws(c),
{
    let u = c as u32;
    (0x09 <= u && u <= 0x0d) || u == 0x20 || u == 0x85 || u == 0xa0 || u == 0x1680 || (0x2000
        <= u && u <= 0x200a) || u == 0x2028 || u == 0x2029 || u == 0x202f || u == 0x205f || u
        == 0x3000
}

proof fn lemma_trim_start_skip(s: Seq<char>, i: int)
    requires
        0 <= i <= s.len(),
        forall|j: int| 0 <= j < i ==> is_ws(s[j]),
    ensures
        trim_start(s) == trim_start(s.subrange(i, s.len() as int)),
    decreases i,
{
    if i > 0 {
        assert(is_ws(s[0]));
        assert(s.drop_first().subrange(i - 1, s.drop_first().len() as int) =~= s.subrange(
            i,
            s.len() as int,
        ));
        assert forall|j: int| 0 <= j < i - 1 implies is_ws(s.drop_first()[j]) by {
            assert(s.drop_first()[j] == s[j + 1]);
        }
        lemma_trim_start_skip(s.drop_first(), i - 1);
    } else {
        assert(s.subrange(0, s.len() as int) =~= s);
    }
}

proof fn lemma_trim_end_skip(s: Seq<char>, k: int)
    requires
        0 <= k <= s.len(),
        forall|j: int| k <= j < s.len() ==> is_ws(s[j]),
    ensures
        trim_end(s) == trim_end(s.subrange(0, k)),
    decreases s.len() - k,
{
    if k < s.len() {
        assert(s.drop_last().subrange(0, k) =~= s.subrange(0, k));
        lemma_trim_end_skip(s.drop_last(), k);
    } else {
        assert(s.subrange(0, k) =~= s);
    }
}

/// `s` without leading and trailing whitespace (`str::trim`).
pub fn trim_chars(s: &[char]) -> (r: Vec<char>)
    ensures
        r@ == trim(s@),
{
    let mut i: usize = 0;
    while i < s.len() && is_whitespace(s[i])
        invariant
            i <= s@.len(),
            forall|j: int| 0 <= j < i ==> is_ws(s@[j]),
        decreases s@.len() - i,
    {
        i = i + 1;
    }
    proof {
        lemma_trim_start_skip(s@, i as int);
    }
    let ghost t = s@.subrange(i as int, s@.len() as int);
    assert(trim_start(s@) == t) by {
        if t.len() > 0 {
            assert(t[0] == s@[i as int]);
        }
    }
    let mut k: usize = s.len();
    while k > i && is_whitespace(s[k - 1])
        invariant
            i <= k <= s@.len(),
            forall|j: int| k <= j < s@.len() ==> is_ws(s@[j]),
        decreases k,
    {
        k = k - 1;
    }
    proof {
        let kk = (k - i) as int;
        assert forall|j: int| kk <= j < t.len() implies is_ws(t[j]) by {
            assert(t[j] == s@[j + i]);
        }
        lemma_trim_end_skip(t, kk);
        let u = t.subrange(0, kk);
        assert(u =~= s@.subrange(i as int, k as int));
        if u.len() > 0 {
            assert(u.last() == s@[k - 1]);
        }
        assert(trim_end(u) == u);
    }
    let mut r: Vec<char> = Vec::new();
    let mut j: usize = i;
    while j < k
        invariant
            i <= j <= k <= s@.len(),
            r@ == s@.subrange(i as int, j as int),
        decreases k - j,
    {
        r.push(s[j]);
        j = j + 1;
        assert(r@ =~= s@.subrange(i as int, j as int));
    }
    r
}

/// The pieces of `s` between occurrences of `sep` (`str::split`).
pub fn split_chars(s: &[char], sep: char) -> (r: Vec<Vec<char>>)
    ensures
        r@.len() == split_on(s@, sep).len(),
        forall|k: int| 0 <= k < r@.len() ==> (#[trigger] r@[k])@ == split_on(s@, sep)[k],
{
    let mut done: Vec<Vec<char>> = Vec::new();
    let mut cur: Vec<char> = Vec::new();
    let mut i: usize = 0;
    while i < s.len()
        invariant
            i <= s@.len(),
            ({
                let sp = split_on(s@.subrange(0, i as int), sep);
                &&& sp.len() == done@.len() + 1
                &&& forall|k: int| 0 <= k < done@.len() ==> (#[trigger] done@[k])@ == sp[k]
                &&& cur@ == sp.last()
            }),
        decreases s@.len() - i,
    {
        let ghost pre = s@.subrange(0, i as int);
        let ghost post = s@.subrange(0, i + 1);
        assert(post.drop_last() =~= pre);
        proof {
            lemma_split_on_nonempty(pre, sep);
        }
        let c = s[i];
        if c == sep {
            let piece = cur;
            done.push(piece);
            cur = Vec::new();
        } else {
            cur.push(c);
        }
        i = i + 1;
    }
    assert(s@.subrange(0, s@.len() as int) =~= s@);
    done.push(cur);
    done
}

/// The whitespace-separated words of `s` (`str::split_whitespace`).
pub fn words_of(s: &[char]) -> (r: Vec<Vec<char>>)
    ensures
        r@.len() == words(s@).len(),
        forall|k: int| 0 <= k < r@.len() ==> (#[trigger] r@[k])@ == words(s@)[k],
{
    let mut done: Vec<Vec<char>> = Vec::new();
    let mut cur: Vec<char> = Vec::new();
    let mut i: usize = 0;
    while i < s.len()
        invariant
            i <= s@.len(),
            ({
                let sp = split_ws(s@.subrange(0, i as int));
                let ne = nonempty_only(sp.drop_last());
                &&& sp.len() >= 1
                &&& ne.len() == done@.len()
                &&& forall|k: int| 0 <= k < done@.len() ==> (#[trigger] done@[k])@ == ne[k]
                &&& cur@ == sp.last()
            }),
        decreases s@.len() - i,
    {
        let ghost pre = s@.subrange(0, i as int);
        let ghost post = s@.subrange(0, i + 1);
        assert(post.drop_last() =~= pre);
        proof {
            lemma_split_ws_nonempty(pre);
        }
        let c = s[i];
        if is_whitespace(c) {
            let ghost sp = split_ws(pre);
            assert(split_ws(post) == sp.push(Seq::<char>::empty()));
            assert(split_ws(post).drop_last() =~= sp);
            assert(sp.drop_last().push(sp.last()) =~= sp);
            if cur.len() > 0 {
                let piece = cur;
                done.push(piece);
            }
            cur = Vec::new();
        } else {
            let ghost sp = split_ws(pre);
            assert(split_ws(post).drop_last() =~= sp.drop_last());
            cur.push(c);
        }
        i = i + 1;
    }
    assert(s@.subrange(0, s@.len() as int) =~= s@);
    let ghost sp = split_ws(s@);
    assert(sp.drop_last().push(sp.last()) =~= sp);
    if cur.len() > 0 {
        done.push(cur);
    }
    done
}

/// Whether `s` begins with `p`.
pub fn starts_with_chars(s: &[char], p: &[char]) -> (r: bool)
    ensures
        r == starts_with(s@, p@),
{
    if p.len() > s.len() {
        return false;
    }
    let mut i: usize = 0;
    while i < p.len()
        invariant
            p@.len() <= s@.len(),
            i <= p@.len(),
            forall|j: int| 0 <= j < i ==> s@[j] == p@[j],
        decreases p@.len() - i,
    {
        if s[i] != p[i] {
            assert(s@.subrange(0, p@.len() as int)[i as int] != p@[i as int]);
            return false;
        }
        i = i + 1;
    }
    assert(s@.subrange(0, p@.len() as int) =~= p@);
    true
}

/// Whether `s` ends with `p`.
pub fn ends_with_chars(s: &[char], p: &[char]) -> (r: bool)
    ensures
        r == ends_with(s@, p@),
{
    if p.len() > s.len() {
        return false;
    }
    let n = s.len();
    let off = n - p.len();
    let mut i: usize = 0;
    while i < p.len()
        invariant
            n == s@.len(),
            p@.len() <= s@.len(),
            off == s@.len() - p@.len(),
            i <= p@.len(),
            forall|j: int| 0 <= j < i ==> s@[off + j] == p@[j],
        decreases p@.len() - i,
    {
        assert(off + i < s@.len());
        if s[off + i] != p[i] {
            assert(s@.subrange(off as int, s@.len() as int)[i as int] != p@[i as int]);
            return false;
        }
        i = i + 1;
    }
    assert(s@.subrange(off as int, s@.len() as int) =~= p@);
    true
}

/// Whether `p` occurs at position `i` of `s`.
fn occurs_at_exec(s: &[char], p: &[char], i: usize) -> (r: bool)
    requires
        i + p@.len() <= s@.len(),
    ensures
        r == occurs_at(s@, p@, i as int),
{
    let n = s.len();
    let mut j: usize = 0;
    while j < p.len()
        invariant
            n == s@.len(),
            i + p@.len() <= s@.len(),
            j <= p@.len(),
            forall|k: int| 0 <= k < j ==> s@[i + k] == p@[k],
        decreases p@.len() - j,
    {
        assert(i + j < s@.len());
        if s[i + j] != p[j] {
            assert(s@.subrange(i as int, i + p@.len())[j as int] != p@[j as int]);
            return false;
        }
        j = j + 1;
    }
    assert(s@.subrange(i as int, i + p@.len()) =~= p@);
    true
}

/// Whether `p` occurs in `s` (`str::contains`).
pub fn contains_chars(s: &[char], p: &[char]) -> (r: bool)
    ensures
        r == contains(s@, p@),
{
    if p.len() > s.len() {
        assert forall|i: int| !occurs_at(s@, p@, i) by {}
        return false;
    }
    let last = s.len() - p.len();
    let mut i: usize = 0;
    while i < last
        invariant
            last == s@.len() - p@.len(),
            i <= last,
            forall|k: int| 0 <= k < i ==> !occurs_at(s@, p@, k),
        decreases last - i,
    {
        if occurs_at_exec(s, p, i) {
            return true;
        }
        i = i + 1;
    }
    if occurs_at_exec(s, p, last) {
        return true;
    }
    assert forall|k: int| !occurs_at(s@, p@, k) by {
        if 0 <= k < i {
        } else {
        }
    }
    false
}

/// The position of the first `c` in `s`, if any.
pub fn find_char(s: &[char], c: char) -> (r: Option<usize>)
    ensures
        match r {
            Some(i) => has_char(s@, c) && i == first_index(s@, c) && i < s@.len(),
            None => !has_char(s@, c),
        },
{
    let mut i: usize = 0;
    while i < s.len()
        invariant
            i <= s@.len(),
            forall|j: int| 0 <= j < i ==> s@[j] != c,
        decreases s@.len() - i,
    {
        if s[i] == c {
            let ghost f = first_index(s@, c);
            assert(has_char(s@, c));
            assert(f == i) by {
                if f < i {
                } else if f > i {
                }
            }
            return Some(i);
        }
        i = i + 1;
    }
    None
}

/// The position of the last `c` in `s`, if any.
pub fn rfind_char(s: &[char], c: char) -> (r: Option<usize>)
    ensures
        match r {
            Some(i) => has_char(s@, c) && i == last_index(s@, c) && i < s@.len(),
            None => !has_char(s@, c),
        },
{
    let mut k: usize = s.len();
    while k > 0
        invariant
            k <= s@.len(),
            forall|j: int| k <= j < s@.len() ==> s@[j] != c,
        decreases k,
    {
        if s[k - 1] == c {
            let i = k - 1;
            let ghost f = last_index(s@, c);
            assert(has_char(s@, c));
            assert(f == i) by {
                if f < i {
                } else if f > i {
                }
            }
            return Some(i);
        }
        k = k - 1;
    }
    None
}

/// The characters of `s` from position `i` up to `j`.
pub fn sub_chars(s: &[char], i: usize, j: usize) -> (r: Vec<char>)
    requires
        i <= j <= s@.len(),
    ensures
        r@ == s@.subrange(i as int, j as int),
{
    let mut r: Vec<char> = Vec::new();
    let mut k: usize = i;
    while k < j
        invariant
            i <= k <= j <= s@.len(),
            r@ == s@.subrange(i as int, k as int),
        decreases j - k,
    {
        r.push(s[k]);
        k = k + 1;
        assert(r@ =~= s@.subrange(i as int, k as int));
    }
    r
}

/// `str::split_once` on a character.
pub fn split_once_chars(s: &[char], c: char) -> (r: Option<(Vec<char>, Vec<char>)>)
    ensures
        match split_once(s@, c) {
            Some((a, b)) => r matches Some((x, y)) && x@ == a && y@ == b,
            None => r is None,
        },
{
    match find_char(s, c) {
        Some(i) => {
            let n = s.len();
            Some((sub_chars(s, 0, i), sub_chars(s, i + 1, n)))
        },
        None => None,
    }
}

/// `str::rsplit_once` on a character.
pub fn rsplit_once_chars(s: &[char], c: char) -> (r: Option<(Vec<char>, Vec<char>)>)
    ensures
        match rsplit_once(s@, c) {
            Some((a, b)) => r matches Some((x, y)) && x@ == a && y@ == b,
            None => r is None,
        },
{
    match rfind_char(s, c) {
        Some(i) => {
            let n = s.len();
            Some((sub_chars(s, 0, i), sub_chars(s, i + 1, n)))
        },
        None => None,
    }
}

/// Whether a character is an ASCII digit.
pub fn is_ascii_digit(c: char) -> (r: bool)
    ensures
        r == is_digit(c),
{
    '0' <= c && c <= '9'
}

/// Whether every character of `s` is an ASCII digit.
pub fn all_ascii_digits(s: &[char]) -> (r: bool)
    ensures
        r == all_digits(s@),
{
    let mut i: usize = 0;
    while i < s.len()
        invariant
            i <= s@.len(),
            forall|j: int| 0 <= j < i ==> is_digit(#[trigger] s@[j]),
        decreases s@.len() - i,
    {
        if !is_ascii_digit(s[i]) {
            return false;
        }
        i = i + 1;
    }
    true
}

/// The ASCII digit for a value below ten.
pub fn digit_char_exec(d: u64) -> (c: char)
    requires
        d < 10,
    ensures
        c == digit_char(d as nat),
{
    if d == 0 {
        '0'
    } else if d == 1 {
        '1'
    } else if d == 2 {
        '2'
    } else if d == 3 {
        '3'
    } else if d == 4 {
        '4'
    } else if d == 5 {
        '5'
    } else if d == 6 {
        '6'
    } else if d == 7 {
        '7'
    } else if d == 8 {
        '8'
    } else {
        '9'
    }
}

/// Appends the decimal rendering of `n` to `s`.
pub fn push_dec(s: &mut String, n: u64)
    ensures
        final(s)@ == old(s)@ + dec(n as nat),
    decreases n,
{
    if n < 10 {
        push_char(s, digit_char_exec(n));
        assert(s@ =~= old(s)@ + dec(n as nat));
    } else {
        push_dec(s, n / 10);
        push_char(s, digit_char_exec(n % 10));
        assert(s@ =~= old(s)@ + dec(n as nat));
    }
}

/// Appends the decimal rendering of a signed integer to `s`.
pub fn push_dec_i64(s: &mut String, n: i64)
    ensures
        final(s)@ == old(s)@ + dec_int(n as int),
{
    if n < 0 {
        push_char(s, '-');
        let m: u64 = if n == i64::MIN {
            9223372036854775808u64
        } else {
            (-n) as u64
        };
        push_dec(s, m);
        assert(s@ =~= old(s)@ + dec_int(n as int));
    } else {
        push_dec(s, n as u64);
    }
}

/// The upper-case hexadecimal digit for a value below sixteen.
fn hex_digit_exec(d: u8) -> (c: char)
    requires
        d < 16,
    ensures
        c == hex_digit(d),
{
    if d < 10 {
        digit_char_exec(d as u64)
    } else if d == 10 {
        'A'
    } else if d == 11 {
        'B'
    } else if d == 12 {
        'C'
    } else if d == 13 {
        'D'
    } else if d == 14 {
        'E'
    } else {
        'F'
    }
}

/// Appends a byte as two upper-case hexadecimal digits.
pub fn push_hex_byte(s: &mut String, b: u8)
    ensures
        final(s)@ == old(s)@ + hex_byte(b),
{
    push_char(s, hex_digit_exec(b / 16));
    push_char(s, hex_digit_exec(b % 16));
    assert(s@ =~= old(s)@ + hex_byte(b));
}

/// `str::parse` for an unsigned integer type whose largest value is `max`:
/// an optional `+`, then one or more ASCII digits whose value is at most `max`.
pub open spec fn parse_unsigned(t: Seq<char>, max: nat) -> Option<nat> {
    let d = if t.len() > 0 && t[0] == '+' {
        t.drop_first()
    } else {
        t
    };
    if d.len() > 0 && all_digits(d) && digits_value(d) <= max {
        Some(digits_value(d))
    } else {
        None
    }
}

proof fn lemma_digits_value_step(s: Seq<char>, k: int)
    requires
        0 <= k < s.len(),
    ensures
        digits_value(s.subrange(0, k + 1)) == digits_value(s.subrange(0, k)) * 10 + (
        s[k] as u32 - '0' as u32) as nat,
        digits_value(s.subrange(0, k + 1)) >= digits_value(s.subrange(0, k)),
{
    let t = s.subrange(0, k + 1);
    assert(t.drop_last() =~= s.subrange(0, k));
    assert(t.last() == s[k]);
}

proof fn lemma_digits_value_mono(s: Seq<char>, k: int)
    requires
        0 <= k <= s.len(),
    ensures
        digits_value(s) >= digits_value(s.subrange(0, k)),
    decreases s.len() - k,
{
    if k < s.len() {
        lemma_digits_value_step(s, k);
        lemma_digits_value_mono(s, k + 1);
    } else {
        assert(s.subrange(0, k) =~= s);
    }
}

/// Parses one word as an unsigned integer of at most `max`.
pub fn parse_unsigned_chars(t: &[char], max: u32) -> (r: Option<u32>)
    ensures
        match parse_unsigned(t@, max as nat) {
            Some(v) => r == Some(v as u32),
            None => r is None,
        },
{
    let start: usize = if t.len() > 0 && t[0] == '+' {
        1
    } else {
        0
    };
    let ghost d = if t@.len() > 0 && t@[0] == '+' {
        t@.drop_first()
    } else {
        t@
    };
    assert(d =~= t@.subrange(start as int, t@.len() as int));
    if start >= t.len() {
        return None;
    }
    let mut value: u32 = 0;
    let mut i: usize = start;
    assert(d.subrange(0, 0) =~= Seq::<char>::empty());
    while i < t.len()
        invariant
            start <= i <= t@.len(),
            d == t@.subrange(start as int, t@.len() as int),
            d == (if t@.len() > 0 && t@[0] == '+' {
                t@.drop_first()
            } else {
                t@
            }),
            all_digits(d.subrange(0, i - start)),
            value == digits_value(d.subrange(0, i - start)),
            value <= max,
        decreases t@.len() - i,
    {
        let c = t[i];
        if !('0' <= c && c <= '9') {
            assert(!all_digits(d)) by {
                assert(d[i - start] == c);
                assert(!is_digit(d[i - start]));
            }
            return None;
        }
        proof {
            lemma_digits_value_step(d, i - start);
        }
        let digit = (c as u32) - ('0' as u32);
        if digit > max || value > (max - digit) / 10 {
            proof {
                lemma_digits_value_mono(d, i - start + 1);
                if digit <= max {
                    assert(value * 10 + digit > max) by (nonlinear_arith)
                        requires
                            value > (max - digit) / 10,
                            max >= digit,
                    ;
                }
                assert(digits_value(d.subrange(0, i - start + 1)) == value * 10 + digit);
                assert(digits_value(d) > max);
            }
            return None;
        }
        assert(value * 10 + digit <= max) by (nonlinear_arith)
            requires
                value <= (max - digit) / 10,
                max >= digit,
        ;
        value = value * 10 + digit;
        i = i + 1;
        assert forall|j: int| 0 <= j < i - start implies is_digit(
            #[trigger] d.subrange(0, i - start)[j],
        ) by {
            if j < i - start - 1 {
                assert(d.subrange(0, i - start)[j] == d.subrange(0, i - start - 1)[j]);
            }
        }
    }
    assert(d.subrange(0, d.len() as int) =~= d);
    Some(value)
}

/// Appends a string slice to `s`.
pub fn push_str(s: &mut String, t: &str)
    ensures
        final(s)@ == old(s)@ + t@,
{
    s.append(t);
}


/// `s` without trailing whitespace (`str::trim_end`).
pub fn trim_end_chars(s: &[char]) -> (r: Vec<char>)
    ensures
        r@ == trim_end(s@),
{
    let mut k: usize = s.len();
    while k > 0 && is_whitespace(s[k - 1])
        invariant
            k <= s@.len(),
            forall|j: int| k <= j < s@.len() ==> is_ws(s@[j]),
        decreases k,
    {
        k = k - 1;
    }
    proof {
        lemma_trim_end_skip(s@, k as int);
        let u = s@.subrange(0, k as int);
        if u.len() > 0 {
            assert(u.last() == s@[k - 1]);
        }
        assert(trim_end(u) == u);
    }
    let mut r: Vec<char> = Vec::new();
    let mut j: usize = 0;
    while j < k
        invariant
            j <= k <= s@.len(),
            r@ == s@.subrange(0, j as int),
        decreases k - j,
    {
        r.push(s[j]);
        j = j + 1;
        assert(r@ =~= s@.subrange(0, j as int));
    }
    r
}

/// A path joined with one more component, as `Path::join` does for a
/// relative component: a `/` is put between them unless the base is empty or
/// already ends with one.
pub open spec fn join_path(base: Seq<char>, name: Seq<char>) -> Seq<char> {
    if base.len() == 0 || base.last() == '/' {
        base + name
    } else {
        base + seq!['/'] + name
    }
}

/// Joins a path and a relative component (see [`join_path`]).
pub fn join_path_exec(base: &str, name: &str) -> (r: String)
    ensures
        r@ == join_path(base@, name@),
{
    let mut s = String::new();
    push_str(&mut s, base);
    let n = base.unicode_len();
    if n > 0 && base.get_char(n - 1) != '/' {
        push_char(&mut s, '/');
    }
    push_str(&mut s, name);
    s
}

} // verus!
