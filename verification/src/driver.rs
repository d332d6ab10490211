//! Backend-agnostic pieces of the automation driver: its error and
//! configuration types, glob matching of element selectors, and the searches
//! over an element hierarchy that back the default element-finding methods.

use vstd::prelude::*;
use crate::element::{element_view, forest_view, lemma_forest_view_pointwise, opt_chars, ElementView, UIElement};
use crate::text::{chars_eq, chars_of, has_char, push_str, starts_with};
use crate::usb_tunnel::{UsbTunnelError, usb_tunnel_error_message};
use crate::io_error::io_error_text;

verus! {

broadcast use vstd::std_specs::vec::axiom_vec_decreases_to_view;

// ---------------------------------------------------------------------------
// Errors and configuration
// ---------------------------------------------------------------------------

/// Errors that can occur during automation driver operations.
#[derive(Debug)]
pub enum DriverError {
    /// A command or operation failed with the given message.
    CommandFailed(String),
    /// The backend is not available or not connected.
    NotConnected,
    /// The TCP connection to the agent was lost.
    ConnectionLost(String),
    /// An operation timed out.
    Timeout,
    /// An I/O error occurred.
    Io(std::io::Error),
    /// Failed to parse JSON data.
    JsonParse(String),
    /// A USB tunnel operation failed.
    UsbTunnel(UsbTunnelError),
}

/// The text that describes a driver error; for an I/O error, the prefix
/// before the platform's own text.
pub open spec fn driver_error_message(e: DriverError) -> Seq<char> {
    match e {
        DriverError::CommandFailed(m) => "Command failed: "@ + m@,
        DriverError::NotConnected => "Not connected to automation backend"@,
        DriverError::ConnectionLost(m) => "Connection lost: "@ + m@,
        DriverError::Timeout => "Operation timed out"@,
        DriverError::Io(_) => "IO error: "@,
        DriverError::JsonParse(m) => "JSON parse error: "@ + m@,
        DriverError::UsbTunnel(u) => "USB tunnel error: "@ + usb_tunnel_error_message(u),
    }
}

/// Whether `m` is the text of error `e`: exactly its message, or, for an I/O
/// error, a text that begins with the message's prefix.
pub open spec fn describes(e: DriverError, m: Seq<char>) -> bool {
    if e is Io {
        starts_with(m, driver_error_message(e))
    } else {
        m == driver_error_message(e)
    }
}

impl DriverError {
    /// The human-readable description of the error.
    pub fn message(&self) -> (r: String)
        ensures
            describes(*self, r@),
    {
        match self {
            DriverError::CommandFailed(m) => {
                let mut s = String::from_str("Command failed: ");
                push_str(&mut s, m.as_str());
                s
            },
            DriverError::NotConnected => String::from_str("Not connected to automation backend"),
            DriverError::ConnectionLost(m) => {
                let mut s = String::from_str("Connection lost: ");
                push_str(&mut s, m.as_str());
                s
            },
            DriverError::Timeout => String::from_str("Operation timed out"),
            DriverError::Io(err) => {
                let mut s = String::from_str("IO error: ");
                let t = io_error_text(err);
                let ghost pre = s@;
                push_str(&mut s, t.as_str());
                assert(s@.subrange(0, pre.len() as int) =~= pre);
                s
            },
            DriverError::JsonParse(m) => {
                let mut s = String::from_str("JSON parse error: ");
                push_str(&mut s, m.as_str());
                s
            },
            DriverError::UsbTunnel(u) => {
                let mut s = String::from_str("USB tunnel error: ");
                let t = u.message();
                push_str(&mut s, t.as_str());
                s
            },
        }
    }
}

/// Configuration for selecting an automation backend at runtime.
#[derive(Debug, Clone)]
pub enum DriverConfig {
    /// A TCP-based agent reachable directly (typically a simulator).
    Agent {
        /// The hostname or IP address of the agent.
        host: String,
        /// The TCP port the agent is listening on.
        port: u16,
    },
    /// An agent on a physical device reached through a USB tunnel.
    Device {
        /// The UDID of the physical device.
        udid: String,
        /// The TCP port the agent listens on inside the device.
        device_port: u16,
    },
}

// ---------------------------------------------------------------------------
// Glob matching
// ---------------------------------------------------------------------------

/// The pattern holds a wildcard character (`*` or `?`).
pub open spec fn has_wildcard_spec(p: Seq<char>) -> bool {
    has_char(p, '*') || has_char(p, '?')
}

/// Glob matching: `*` matches any run of characters (including none) and `?`
/// matches exactly one character; every other character matches itself.
pub open spec fn glob(p: Seq<char>, t: Seq<char>) -> bool
    decreases p.len() + t.len(),
{
    if p.len() == 0 {
        t.len() == 0
    } else if p.last() == '*' {
        glob(p.drop_last(), t) || (t.len() > 0 && glob(p, t.drop_last()))
    } else {
        t.len() > 0 && (p.last() == '?' || p.last() == t.last()) && glob(
            p.drop_last(),
            t.drop_last(),
        )
    }
}

/// What `glob_match` decides: exact equality for a pattern without
/// wildcards, glob matching otherwise.
pub open spec fn glob_match_spec(p: Seq<char>, t: Seq<char>) -> bool {
    if has_wildcard_spec(p) {
        glob(p, t)
    } else {
        p == t
    }
}

/// A pattern without wildcards glob-matches exactly the text equal to it.
pub proof fn lemma_glob_literal(p: Seq<char>, t: Seq<char>)
    requires
        !has_wildcard_spec(p),
    ensures
        glob(p, t) == (p == t),
    decreases p.len() + t.len(),
{
    if p.len() == 0 {
        if t.len() > 0 {
            assert(p != t);
        } else {
            assert(p =~= t);
        }
    } else {
        assert(p.last() == p[p.len() - 1]);
        assert(p.last() != '*' && p.last() != '?');
        assert(!has_wildcard_spec(p.drop_last())) by {
            if has_char(p.drop_last(), '*') {
                let i = choose|i: int| 0 <= i < p.drop_last().len() && p.drop_last()[i] == '*';
                assert(p[i] == '*');
            }
            if has_char(p.drop_last(), '?') {
                let i = choose|i: int| 0 <= i < p.drop_last().len() && p.drop_last()[i] == '?';
                assert(p[i] == '?');
            }
        }
        if t.len() > 0 {
            lemma_glob_literal(p.drop_last(), t.drop_last());
            if p == t {
                assert(p.drop_last() =~= t.drop_last());
                assert(glob(p, t));
            } else if p.drop_last() == t.drop_last() && p.last() == t.last() {
                assert(p =~= p.drop_last().push(p.last()));
                assert(t =~= t.drop_last().push(t.last()));
            } else {
                assert(!glob(p, t));
            }
        } else {
            assert(p != t);
        }
    }
}

/// Whether `glob_match` would take the exact-equality path does not change
/// its answer: the decision always equals glob matching.
pub proof fn lemma_glob_match_is_glob(p: Seq<char>, t: Seq<char>)
    ensures
        glob_match_spec(p, t) == glob(p, t),
{
    if !has_wildcard_spec(p) {
        lemma_glob_literal(p, t);
    }
}

/// A `*` matches any text.
pub proof fn lemma_star_matches_all(t: Seq<char>)
    ensures
        glob(seq!['*'], t),
    decreases t.len(),
{
    let p = seq!['*'];
    assert(p.drop_last() =~= Seq::<char>::empty());
    assert(p.last() == '*');
    if t.len() > 0 {
        lemma_star_matches_all(t.drop_last());
    } else {
        assert(glob(p.drop_last(), t));
    }
}

/// A `?` matches exactly the texts of one character.
pub proof fn lemma_question_matches_one(t: Seq<char>)
    ensures
        glob(seq!['?'], t) <==> t.len() == 1,
{
    let p = seq!['?'];
    assert(p.drop_last() =~= Seq::<char>::empty());
    assert(p.last() == '?');
    if t.len() > 0 {
        assert(glob(Seq::<char>::empty(), t.drop_last()) == (t.drop_last().len() == 0));
    }
}

/// A literal prefix followed by `*` matches exactly the texts that begin
/// with that prefix.
pub proof fn lemma_prefix_star(p: Seq<char>, t: Seq<char>)
    requires
        !has_wildcard_spec(p),
    ensures
        glob(p.push('*'), t) <==> (t.len() >= p.len() && t.subrange(0, p.len() as int) == p),
    decreases t.len(),
{
    let q = p.push('*');
    assert(q.drop_last() =~= p);
    assert(q.last() == '*');
    lemma_glob_literal(p, t);
    if t.len() > 0 {
        lemma_prefix_star(p, t.drop_last());
        if t.len() > p.len() {
            assert(t.drop_last().subrange(0, p.len() as int) =~= t.subrange(0, p.len() as int));
        }
        if t.len() == p.len() {
            if t.subrange(0, p.len() as int) == p {
                assert(t =~= t.subrange(0, p.len() as int));
            }
        }
    } else {
        if p.len() == 0 {
            assert(t.subrange(0, 0) =~= p);
        }
    }
    if t.len() >= p.len() && p == t {
        assert(t.subrange(0, p.len() as int) =~= t);
    }
}

/// Returns true if the pattern contains glob wildcard characters (`*` or `?`).
fn has_wildcard(pattern: &[char]) -> (r: bool)
    ensures
        r == has_wildcard_spec(pattern@),
{
    let mut i: usize = 0;
    while i < pattern.len()
        invariant
            i <= pattern@.len(),
            forall|j: int| 0 <= j < i ==> pattern@[j] != '*' && pattern@[j] != '?',
        decreases pattern@.len() - i,
    {
        if pattern[i] == '*' || pattern[i] == '?' {
            return true;
        }
        i = i + 1;
    }
    false
}

/// One row of the matching table: row `i` from row `i - 1`.
fn glob_row(pat: &[char], txt: &[char], i: usize, prev: &Vec<bool>) -> (cur: Vec<bool>)
    requires
        1 <= i <= pat@.len(),
        prev@.len() == txt@.len() + 1,
        forall|j: int|
            0 <= j <= txt@.len() ==> prev@[j] == glob(
                pat@.subrange(0, i - 1),
                txt@.subrange(0, j),
            ),
    ensures
        cur@.len() == txt@.len() + 1,
        forall|j: int|
            0 <= j <= txt@.len() ==> cur@[j] == glob(pat@.subrange(0, i as int), txt@.subrange(0, j)),
{
    let ghost pi = pat@.subrange(0, i as int);
    assert(pi.drop_last() =~= pat@.subrange(0, i - 1));
    assert(pi.last() == pat@[i - 1]);
    let c = pat[i - 1];
    let mut cur: Vec<bool> = Vec::new();
    assert(txt@.subrange(0, 0) =~= Seq::<char>::empty());
    cur.push(c == '*' && prev[0]);
    let n = txt.len();
    let mut j: usize = 0;
    while j < n
        invariant
            n == txt@.len(),
            1 <= i <= pat@.len(),
            j <= n,
            c == pat@[i - 1],
            pi == pat@.subrange(0, i as int),
            pi.drop_last() == pat@.subrange(0, i - 1),
            pi.last() == c,
            prev@.len() == txt@.len() + 1,
            forall|k: int|
                0 <= k <= txt@.len() ==> prev@[k] == glob(
                    pat@.subrange(0, i - 1),
                    txt@.subrange(0, k),
                ),
            cur@.len() == j + 1,
            forall|k: int| 0 <= k <= j ==> cur@[k] == glob(pi, txt@.subrange(0, k)),
        decreases n - j,
    {
        let ghost tj = txt@.subrange(0, j + 1);
        assert(tj.drop_last() =~= txt@.subrange(0, j as int));
        assert(tj.last() == txt@[j as int]);
        let v = if c == '*' {
            prev[j + 1] || cur[j]
        } else if c == '?' || c == txt[j] {
            prev[j]
        } else {
            false
        };
        cur.push(v);
        j = j + 1;
    }
    cur
}

/// Matches a string against a glob pattern with `*` (any chars) and `?`
/// (single char); a pattern without wildcards matches by exact equality.
pub fn glob_match(pattern: &str, text: &str) -> (r: bool)
    ensures
        r == glob_match_spec(pattern@, text@),
{
    let pat = chars_of(pattern);
    let txt = chars_of(text);
    if !has_wildcard(pat.as_slice()) {
        return chars_eq(pat.as_slice(), txt.as_slice());
    }
    let plen = pat.len();
    let tlen = txt.len();
    // Row 0: the empty pattern matches only the empty text.
    let mut row: Vec<bool> = Vec::new();
    assert(txt@.subrange(0, 0) =~= Seq::<char>::empty());
    row.push(true);
    let mut j: usize = 0;
    while j < tlen
        invariant
            tlen == txt@.len(),
            j <= tlen,
            row@.len() == j + 1,
            forall|k: int| 0 <= k <= j ==> row@[k] == glob(Seq::<char>::empty(), txt@.subrange(0, k)),
        decreases tlen - j,
    {
        row.push(false);
        j = j + 1;
    }
    assert(pat@.subrange(0, 0) =~= Seq::<char>::empty());
    let mut i: usize = 0;
    while i < plen
        invariant
            plen == pat@.len(),
            tlen == txt@.len(),
            i <= plen,
            row@.len() == tlen + 1,
            forall|k: int|
                0 <= k <= tlen ==> row@[k] == glob(pat@.subrange(0, i as int), txt@.subrange(0, k)),
        decreases plen - i,
    {
        row = glob_row(pat.as_slice(), txt.as_slice(), i + 1, &row);
        i = i + 1;
    }
    assert(pat@.subrange(0, plen as int) =~= pat@);
    assert(txt@.subrange(0, tlen as int) =~= txt@);
    row[tlen]
}

// ---------------------------------------------------------------------------
// Hierarchy searches
// ---------------------------------------------------------------------------

/// The optional text matches the glob pattern (absent text never matches).
pub open spec fn opt_glob(text: Option<Seq<char>>, pattern: Seq<char>) -> bool {
    match text {
        Some(t) => glob_match_spec(pattern, t),
        None => false,
    }
}

/// What makes an element a hit for a search: its identifier or label matches
/// the selector, and, with a type filter, its type equals the filter.
pub open spec fn element_hit(
    e: ElementView,
    selector: Seq<char>,
    by_label: bool,
    element_type: Option<Seq<char>>,
) -> bool {
    &&& if by_label {
        opt_glob(e.label, selector)
    } else {
        opt_glob(e.identifier, selector)
    }
    &&& match element_type {
        Some(t) => e.element_type == Some(t),
        None => true,
    }
}

/// The first hit in a pre-order walk of the hierarchy: each element is tried
/// before its children, and its children before its later siblings.
pub open spec fn first_hit(
    es: Seq<ElementView>,
    selector: Seq<char>,
    by_label: bool,
    element_type: Option<Seq<char>>,
) -> Option<ElementView>
    decreases es,
{
    if es.len() == 0 {
        None
    } else if element_hit(es[0], selector, by_label, element_type) {
        Some(es[0])
    } else {
        match first_hit(es[0].children, selector, by_label, element_type) {
            Some(x) => Some(x),
            None => first_hit(es.drop_first(), selector, by_label, element_type),
        }
    }
}

/// Every element of the hierarchy, each before its children and its
/// children before its later siblings.
pub open spec fn all_nodes(es: Seq<ElementView>) -> Seq<ElementView>
    decreases es,
{
    if es.len() == 0 {
        Seq::empty()
    } else {
        seq![es[0]] + all_nodes(es[0].children) + all_nodes(es.drop_first())
    }
}

/// A search's result is an element of the hierarchy whose label (or
/// identifier) matches the selector and whose type is the filter's, when a
/// filter is given; and the search finds something whenever some element of
/// the hierarchy matches both.
pub proof fn lemma_search_finds_matching_type(
    es: Seq<ElementView>,
    selector: Seq<char>,
    by_label: bool,
    element_type: Option<Seq<char>>,
)
    ensures
        first_hit(es, selector, by_label, element_type) matches Some(x) ==> {
            &&& all_nodes(es).contains(x)
            &&& (if by_label {
                x.label matches Some(l) && glob_match_spec(selector, l)
            } else {
                x.identifier matches Some(i) && glob_match_spec(selector, i)
            })
            &&& (element_type matches Some(t) ==> x.element_type == Some(t))
        },
        (exists|x: ElementView|
            #[trigger] all_nodes(es).contains(x) && (if by_label {
                x.label matches Some(l) && glob_match_spec(selector, l)
            } else {
                x.identifier matches Some(i) && glob_match_spec(selector, i)
            }) && (element_type matches Some(t) ==> x.element_type == Some(t)))
            ==> first_hit(es, selector, by_label, element_type) is Some,
    decreases es,
{
    if es.len() > 0 {
        lemma_search_finds_matching_type(es[0].children, selector, by_label, element_type);
        lemma_search_finds_matching_type(es.drop_first(), selector, by_label, element_type);
        let n = all_nodes(es);
        let c = all_nodes(es[0].children);
        let d = all_nodes(es.drop_first());
        assert(n == seq![es[0]] + c + d);
        assert forall|x: ElementView| c.contains(x) implies n.contains(x) by {
            let j = choose|j: int| 0 <= j < c.len() && c[j] == x;
            assert(n[1 + j] == x);
        }
        assert forall|x: ElementView| d.contains(x) implies n.contains(x) by {
            let j = choose|j: int| 0 <= j < d.len() && d[j] == x;
            assert(n[1 + c.len() + j] == x);
        }
        assert(n[0] == es[0]);
        assert forall|x: ElementView| n.contains(x) implies x == es[0] || c.contains(x) || d.contains(x) by {
            let j = choose|j: int| 0 <= j < n.len() && n[j] == x;
            if j == 0 {
            } else if j < 1 + c.len() {
                assert(c[j - 1] == x);
            } else {
                assert(d[j - 1 - c.len()] == x);
            }
        }
    }
}

/// A search returns the first matching element in pre-order: every element
/// before it in the walk fails the selector or the type filter.
pub proof fn lemma_search_returns_first(
    es: Seq<ElementView>,
    selector: Seq<char>,
    by_label: bool,
    element_type: Option<Seq<char>>,
)
    ensures
        first_hit(es, selector, by_label, element_type) matches Some(x) ==> exists|j: int|
            0 <= j < all_nodes(es).len() && all_nodes(es)[j] == x && forall|k: int|
                #![trigger all_nodes(es)[k]]
                0 <= k < j ==> !((if by_label {
                    all_nodes(es)[k].label matches Some(l) && glob_match_spec(selector, l)
                } else {
                    all_nodes(es)[k].identifier matches Some(i) && glob_match_spec(selector, i)
                }) && (element_type matches Some(t) ==> all_nodes(es)[k].element_type == Some(t))),
    decreases es,
{
    if es.len() > 0 {
        lemma_search_returns_first(es[0].children, selector, by_label, element_type);
        lemma_search_returns_first(es.drop_first(), selector, by_label, element_type);
        lemma_search_finds_matching_type(es[0].children, selector, by_label, element_type);
        let n = all_nodes(es);
        let c = all_nodes(es[0].children);
        let d = all_nodes(es.drop_first());
        assert(n == seq![es[0]] + c + d);
        if element_hit(es[0], selector, by_label, element_type) {
            assert(n[0] == es[0]);
        } else if first_hit(es[0].children, selector, by_label, element_type) is Some {
            let x = first_hit(es[0].children, selector, by_label, element_type)->0;
            let j = choose|j: int|
                0 <= j < c.len() && c[j] == x && forall|k: int|
                    #![trigger c[k]]
                    0 <= k < j ==> !((if by_label {
                        c[k].label matches Some(l) && glob_match_spec(selector, l)
                    } else {
                        c[k].identifier matches Some(i) && glob_match_spec(selector, i)
                    }) && (element_type matches Some(t) ==> c[k].element_type == Some(t)));
            assert(n[1 + j] == x);
            assert forall|k: int| #![trigger n[k]] 0 <= k < 1 + j implies !((if by_label {
                n[k].label matches Some(l) && glob_match_spec(selector, l)
            } else {
                n[k].identifier matches Some(i) && glob_match_spec(selector, i)
            }) && (element_type matches Some(t) ==> n[k].element_type == Some(t))) by {
                if k > 0 {
                    assert(n[k] == c[k - 1]);
                }
            }
        } else if first_hit(es.drop_first(), selector, by_label, element_type) is Some {
            let x = first_hit(es.drop_first(), selector, by_label, element_type)->0;
            let j = choose|j: int|
                0 <= j < d.len() && d[j] == x && forall|k: int|
                    #![trigger d[k]]
                    0 <= k < j ==> !((if by_label {
                        d[k].label matches Some(l) && glob_match_spec(selector, l)
                    } else {
                        d[k].identifier matches Some(i) && glob_match_spec(selector, i)
                    }) && (element_type matches Some(t) ==> d[k].element_type == Some(t)));
            assert(n[1 + c.len() + j] == x);
            assert forall|k: int| #![trigger n[k]] 0 <= k < 1 + c.len() + j implies !((if by_label {
                n[k].label matches Some(l) && glob_match_spec(selector, l)
            } else {
                n[k].identifier matches Some(i) && glob_match_spec(selector, i)
            }) && (element_type matches Some(t) ==> n[k].element_type == Some(t))) by {
                if k > 0 && k < 1 + c.len() {
                    assert(n[k] == c[k - 1]);
                    assert(c.contains(c[k - 1]));
                } else if k >= 1 + c.len() {
                    assert(n[k] == d[k - 1 - c.len()]);
                }
            }
        }
    }
}

/// Whether the optional text matches the pattern.
fn opt_text_matches(text: &Option<String>, pattern: &str) -> (r: bool)
    ensures
        r == opt_glob(opt_chars(*text), pattern@),
{
    match text {
        Some(t) => glob_match(pattern, t.as_str()),
        None => false,
    }
}

/// Whether the optional text equals the given type.
fn type_filter_matches(t: &Option<String>, filter: Option<&str>) -> (r: bool)
    ensures
        r == match filter {
            Some(f) => opt_chars(*t) == Some(f@),
            None => true,
        },
{
    match filter {
        None => true,
        Some(f) => match t {
            Some(s) => {
                let a = chars_of(s.as_str());
                let b = chars_of(f);
                chars_eq(a.as_slice(), b.as_slice())
            },
            None => false,
        },
    }
}

proof fn lemma_first_hit_suffix(
    es: Seq<ElementView>,
    i: int,
    selector: Seq<char>,
    by_label: bool,
    element_type: Option<Seq<char>>,
)
    requires
        0 <= i < es.len(),
    ensures
        first_hit(es.subrange(i, es.len() as int), selector, by_label, element_type) == if element_hit(es[i], selector, by_label, element_type) {
            Some(es[i])
        } else {
            match first_hit(es[i].children, selector, by_label, element_type) {
                Some(x) => Some(x),
                None => first_hit(es.subrange(i + 1, es.len() as int), selector, by_label, element_type),
            }
        },
{
    let s = es.subrange(i, es.len() as int);
    assert(s[0] == es[i]);
    assert(s.drop_first() =~= es.subrange(i + 1, es.len() as int));
}

/// Searches the hierarchy for the first element (pre-order) whose identifier
/// or label matches `selector`, restricted to `element_type` when given.
pub fn search_with_type(
    elements: &[UIElement],
    selector: &str,
    by_label: bool,
    element_type: Option<&str>,
) -> (r: Option<UIElement>)
    ensures
        match first_hit(forest_view(elements@), selector@, by_label, opt_str_view(element_type)) {
            Some(x) => r matches Some(e) && e@ == x,
            None => r is None,
        },
    decreases elements@,
{
    let ghost fv = forest_view(elements@);
    let ghost et = opt_str_view(element_type);
    proof {
        lemma_forest_view_pointwise(elements@);
    }
    assert(fv.subrange(0, fv.len() as int) =~= fv);
    let mut i: usize = 0;
    while i < elements.len()
        invariant
            i <= elements@.len(),
            fv == forest_view(elements@),
            fv.len() == elements@.len(),
            forall|k: int| 0 <= k < elements@.len() ==> #[trigger] fv[k] == element_view(elements@[k]),
            et == opt_str_view(element_type),
            first_hit(fv, selector@, by_label, et) == first_hit(
                fv.subrange(i as int, fv.len() as int),
                selector@,
                by_label,
                et,
            ),
        decreases elements@.len() - i,
    {
        proof {
            lemma_first_hit_suffix(fv, i as int, selector@, by_label, et);
        }
        let element = &elements[i];
        let selector_matches = if by_label {
            opt_text_matches(&element.label, selector)
        } else {
            opt_text_matches(&element.identifier, selector)
        };
        let type_matches = type_filter_matches(&element.element_type, element_type);
        if selector_matches && type_matches {
            return Some(element.deep_clone());
        }
        let found = search_with_type(element.children.as_slice(), selector, by_label, element_type);
        if found.is_some() {
            return found;
        }
        i = i + 1;
    }
    assert(fv.subrange(i as int, fv.len() as int) =~= Seq::<ElementView>::empty());
    None
}

/// The characters of an optional string slice.
pub open spec fn opt_str_view(o: Option<&str>) -> Option<Seq<char>> {
    match o {
        Some(s) => Some(s@),
        None => None,
    }
}

/// Searches the hierarchy for the first element whose identifier matches.
pub fn search_by_identifier(elements: &[UIElement], identifier: &str) -> (r: Option<UIElement>)
    ensures
        match first_hit(forest_view(elements@), identifier@, false, None) {
            Some(x) => r matches Some(e) && e@ == x,
            None => r is None,
        },
{
    search_with_type(elements, identifier, false, None)
}

/// Searches the hierarchy for the first element whose label matches.
pub fn search_by_label(elements: &[UIElement], label: &str) -> (r: Option<UIElement>)
    ensures
        match first_hit(forest_view(elements@), label@, true, None) {
            Some(x) => r matches Some(e) && e@ == x,
            None => r is None,
        },
{
    search_with_type(elements, label, true, None)
}

// ---------------------------------------------------------------------------
// Flattening
// ---------------------------------------------------------------------------

/// The element can be acted on: it has an identifier or a label.
pub open spec fn actionable(e: ElementView) -> bool {
    e.identifier is Some || e.label is Some
}

/// The actionable elements of the hierarchy in pre-order.
pub open spec fn flatten(es: Seq<ElementView>) -> Seq<ElementView>
    decreases es,
{
    if es.len() == 0 {
        Seq::empty()
    } else {
        (if actionable(es[0]) {
            seq![es[0]]
        } else {
            Seq::empty()
        }) + flatten(es[0].children) + flatten(es.drop_first())
    }
}

proof fn lemma_flatten_suffix(es: Seq<ElementView>, i: int)
    requires
        0 <= i < es.len(),
    ensures
        flatten(es.subrange(i, es.len() as int)) == (if actionable(es[i]) {
            seq![es[i]]
        } else {
            Seq::empty()
        }) + flatten(es[i].children) + flatten(es.subrange(i + 1, es.len() as int)),
{
    let s = es.subrange(i, es.len() as int);
    assert(s[0] == es[i]);
    assert(s.drop_first() =~= es.subrange(i + 1, es.len() as int));
}

fn collect_elements(elements: &[UIElement], result: &mut Vec<UIElement>)
    ensures
        forest_view(final(result)@) == forest_view(old(result)@) + flatten(forest_view(elements@)),
    decreases elements@,
{
    let ghost fv = forest_view(elements@);
    proof {
        lemma_forest_view_pointwise(elements@);
    }
    assert(fv.subrange(0, fv.len() as int) =~= fv);
    let mut i: usize = 0;
    while i < elements.len()
        invariant
            i <= elements@.len(),
            fv == forest_view(elements@),
            fv.len() == elements@.len(),
            forall|k: int| 0 <= k < elements@.len() ==> #[trigger] fv[k] == element_view(elements@[k]),
            forest_view(old(result)@) + flatten(fv) == forest_view(result@) + flatten(
                fv.subrange(i as int, fv.len() as int),
            ),
        decreases elements@.len() - i,
    {
        proof {
            lemma_flatten_suffix(fv, i as int);
        }
        let element = &elements[i];
        let ghost before = result@;
        if element.identifier.is_some() || element.label.is_some() {
            result.push(element.deep_clone());
            assert(result@.drop_last() =~= before);
        }
        let ghost mid = forest_view(result@);
        collect_elements(element.children.as_slice(), result);
        i = i + 1;
        proof {
            let head = if actionable(fv[i - 1]) {
                seq![fv[i - 1]]
            } else {
                Seq::<ElementView>::empty()
            };
            assert(mid == forest_view(before) + head);
            assert(forest_view(old(result)@) + flatten(fv) =~= forest_view(result@) + flatten(
                fv.subrange(i as int, fv.len() as int),
            ));
        }
    }
    assert(fv.subrange(i as int, fv.len() as int) =~= Seq::<ElementView>::empty());
    assert(forest_view(result@) + flatten(Seq::<ElementView>::empty()) =~= forest_view(result@));
}

/// Flattens a UI element hierarchy into the list of actionable elements (those
/// with an identifier or a label), in pre-order.
pub fn flatten_elements(elements: &[UIElement]) -> (r: Vec<UIElement>)
    ensures
        forest_view(r@) == flatten(forest_view(elements@)),
{
    let mut result: Vec<UIElement> = Vec::new();
    assert(forest_view(result@) =~= Seq::<ElementView>::empty());
    collect_elements(elements, &mut result);
    assert(Seq::<ElementView>::empty() + flatten(forest_view(elements@)) =~= flatten(
        forest_view(elements@),
    ));
    result
}

} // verus!
