//! The `axe` accessibility tool for iOS Simulators: searches of the
//! hierarchy it describes, the values read from it, and the commands that
//! act through it.
//!
//! Running `axe` and reading its JSON description into [`UIElement`] values
//! is left to the caller; the searches here match selectors exactly.

use vstd::prelude::*;
use crate::android_lifecycle::strings_are;
use crate::driver::{all_nodes, flatten, flatten_elements, opt_str_view};
use crate::element::{
    element_view, forest_view, lemma_forest_view_pointwise, opt_chars, ElementFrame, ElementView,
    UIElement,
};
use crate::io_error::io_error_text;
use crate::json_error::json_error_text;
use crate::text::{chars_eq, chars_of, dec_int, push_dec_i64, push_str, starts_with};

verus! {

broadcast use vstd::std_specs::vec::axiom_vec_decreases_to_view;

/// Errors that can occur when interacting with the axe tool.
#[derive(Debug)]
pub enum AxeError {
    /// An axe command failed.
    CommandFailed(String),
    /// The axe tool is not installed.
    NotInstalled,
    /// The JSON output of axe could not be parsed.
    JsonParse(serde_json::Error),
    /// An I/O error occurred while executing the command.
    Io(std::io::Error),
}

/// The text of an axe error; for a JSON or I/O error, the prefix before the
/// underlying error's own text.
pub open spec fn axe_error_message(e: AxeError) -> Seq<char> {
    match e {
        AxeError::CommandFailed(m) => "Command execution failed: "@ + m@,
        AxeError::NotInstalled => "axe tool not found - install with: brew install cameroncooke/axe/axe"@,
        AxeError::JsonParse(_) => "JSON parse error: "@,
        AxeError::Io(_) => "IO error: "@,
    }
}

impl AxeError {
    /// The human-readable description of the error.
    pub fn message(&self) -> (r: String)
        ensures
            starts_with(r@, axe_error_message(*self)),
            (self is CommandFailed || self is NotInstalled) ==> r@ == axe_error_message(*self),
    {
        match self {
            AxeError::CommandFailed(m) => {
                let mut s = String::from_str("Command execution failed: ");
                push_str(&mut s, m.as_str());
                assert(s@.subrange(0, s@.len() as int) =~= s@);
                s
            },
            AxeError::NotInstalled => {
                let s = String::from_str(
                    "axe tool not found - install with: brew install cameroncooke/axe/axe",
                );
                assert(s@.subrange(0, s@.len() as int) =~= s@);
                s
            },
            AxeError::JsonParse(e) => {
                let mut s = String::from_str("JSON parse error: ");
                let ghost pre = s@;
                let t = json_error_text(e);
                push_str(&mut s, t.as_str());
                assert(s@.subrange(0, pre.len() as int) =~= pre);
                s
            },
            AxeError::Io(e) => {
                let mut s = String::from_str("IO error: ");
                let ghost pre = s@;
                let t = io_error_text(e);
                push_str(&mut s, t.as_str());
                assert(s@.subrange(0, pre.len() as int) =~= pre);
                s
            },
        }
    }
}

// ---------------------------------------------------------------------------
// Exact searches
// ---------------------------------------------------------------------------

/// The element matches the selector exactly (its label or its identifier),
/// and, with a type filter, has that type.
pub open spec fn exact_hit(
    e: ElementView,
    selector: Seq<char>,
    by_label: bool,
    element_type: Option<Seq<char>>,
) -> bool {
    &&& if by_label {
        e.label == Some(selector)
    } else {
        e.identifier == Some(selector)
    }
    &&& match element_type {
        Some(t) => e.element_type == Some(t),
        None => true,
    }
}

/// The first exact hit in a pre-order walk of the hierarchy.
pub open spec fn first_exact(
    es: Seq<ElementView>,
    selector: Seq<char>,
    by_label: bool,
    element_type: Option<Seq<char>>,
) -> Option<ElementView>
    decreases es,
{
    if es.len() == 0 {
        None
    } else if exact_hit(es[0], selector, by_label, element_type) {
        Some(es[0])
    } else {
        match first_exact(es[0].children, selector, by_label, element_type) {
            Some(x) => Some(x),
            None => first_exact(es.drop_first(), selector, by_label, element_type),
        }
    }
}

/// An exact search returns an element of the hierarchy whose label (or
/// identifier) equals the selector and whose type is the filter's, when a
/// filter is given, and every element before it in pre-order fails that;
/// it returns nothing only when no element of the hierarchy qualifies.
pub proof fn lemma_exact_search(
    es: Seq<ElementView>,
    selector: Seq<char>,
    by_label: bool,
    element_type: Option<Seq<char>>,
)
    ensures
        match first_exact(es, selector, by_label, element_type) {
            Some(x) => exists|j: int|
                0 <= j < all_nodes(es).len() && all_nodes(es)[j] == x && (if by_label {
                    x.label == Some(selector)
                } else {
                    x.identifier == Some(selector)
                }) && (element_type matches Some(t) ==> x.element_type == Some(t)) && forall|
                    k: int,
                |
                    #![trigger all_nodes(es)[k]]
                    0 <= k < j ==> !((if by_label {
                        all_nodes(es)[k].label == Some(selector)
                    } else {
                        all_nodes(es)[k].identifier == Some(selector)
                    }) && (element_type matches Some(t) ==> all_nodes(es)[k].element_type == Some(
                        t,
                    ))),
            None => forall|k: int|
                #![trigger all_nodes(es)[k]]
                0 <= k < all_nodes(es).len() ==> !((if by_label {
                    all_nodes(es)[k].label == Some(selector)
                } else {
                    all_nodes(es)[k].identifier == Some(selector)
                }) && (element_type matches Some(t) ==> all_nodes(es)[k].element_type == Some(t))),
        },
    decreases es,
{
    if es.len() > 0 {
        let c0 = es[0].children;
        let rest = es.drop_first();
        lemma_exact_search(c0, selector, by_label, element_type);
        lemma_exact_search(rest, selector, by_label, element_type);
        let n = all_nodes(es);
        let c = all_nodes(c0);
        let d = all_nodes(rest);
        assert(n == seq![es[0]] + c + d);
        assert(n[0] == es[0]);
        assert forall|k: int| 0 <= k < c.len() implies #[trigger] n[1 + k] == c[k] by {}
        assert forall|k: int| 0 <= k < d.len() implies #[trigger] n[1 + c.len() + k] == d[k] by {}
        if exact_hit(es[0], selector, by_label, element_type) {
        } else if first_exact(c0, selector, by_label, element_type) is Some {
            let x = first_exact(c0, selector, by_label, element_type)->0;
            let j = choose|j: int|
                0 <= j < c.len() && c[j] == x && (if by_label {
                    x.label == Some(selector)
                } else {
                    x.identifier == Some(selector)
                }) && (element_type matches Some(t) ==> x.element_type == Some(t)) && forall|k: int|
                    #![trigger c[k]]
                    0 <= k < j ==> !((if by_label {
                        c[k].label == Some(selector)
                    } else {
                        c[k].identifier == Some(selector)
                    }) && (element_type matches Some(t) ==> c[k].element_type == Some(t)));
            assert(n[1 + j] == x);
            assert forall|k: int| #![trigger n[k]] 0 <= k < 1 + j implies !((if by_label {
                n[k].label == Some(selector)
            } else {
                n[k].identifier == Some(selector)
            }) && (element_type matches Some(t) ==> n[k].element_type == Some(t))) by {
                if k > 0 {
                    assert(n[1 + (k - 1)] == c[k - 1]);
                }
            }
        } else if first_exact(rest, selector, by_label, element_type) is Some {
            let x = first_exact(rest, selector, by_label, element_type)->0;
            let j = choose|j: int|
                0 <= j < d.len() && d[j] == x && (if by_label {
                    x.label == Some(selector)
                } else {
                    x.identifier == Some(selector)
                }) && (element_type matches Some(t) ==> x.element_type == Some(t)) && forall|k: int|
                    #![trigger d[k]]
                    0 <= k < j ==> !((if by_label {
                        d[k].label == Some(selector)
                    } else {
                        d[k].identifier == Some(selector)
                    }) && (element_type matches Some(t) ==> d[k].element_type == Some(t)));
            assert(n[1 + c.len() + j] == x);
            assert forall|k: int| #![trigger n[k]] 0 <= k < 1 + c.len() + j implies !((if by_label {
                n[k].label == Some(selector)
            } else {
                n[k].identifier == Some(selector)
            }) && (element_type matches Some(t) ==> n[k].element_type == Some(t))) by {
                if k > 0 && k < 1 + c.len() {
                    assert(n[1 + (k - 1)] == c[k - 1]);
                } else if k >= 1 + c.len() {
                    assert(n[1 + c.len() + (k - 1 - c.len())] == d[k - 1 - c.len()]);
                }
            }
        } else {
            assert forall|k: int| #![trigger n[k]] 0 <= k < n.len() implies !((if by_label {
                n[k].label == Some(selector)
            } else {
                n[k].identifier == Some(selector)
            }) && (element_type matches Some(t) ==> n[k].element_type == Some(t))) by {
                if k > 0 && k < 1 + c.len() {
                    assert(n[1 + (k - 1)] == c[k - 1]);
                } else if k >= 1 + c.len() {
                    assert(n[1 + c.len() + (k - 1 - c.len())] == d[k - 1 - c.len()]);
                }
            }
        }
    }
}

proof fn lemma_first_exact_suffix(
    es: Seq<ElementView>,
    i: int,
    selector: Seq<char>,
    by_label: bool,
    element_type: Option<Seq<char>>,
)
    requires
        0 <= i < es.len(),
    ensures
        first_exact(es.subrange(i, es.len() as int), selector, by_label, element_type) == if exact_hit(es[i], selector, by_label, element_type) {
            Some(es[i])
        } else {
            match first_exact(es[i].children, selector, by_label, element_type) {
                Some(x) => Some(x),
                None => first_exact(es.subrange(i + 1, es.len() as int), selector, by_label, element_type),
            }
        },
{
    let s = es.subrange(i, es.len() as int);
    assert(s[0] == es[i]);
    assert(s.drop_first() =~= es.subrange(i + 1, es.len() as int));
}

fn text_equals(t: &Option<String>, want: &str) -> (r: bool)
    ensures
        r == (opt_chars(*t) == Some(want@)),
{
    match t {
        Some(s) => {
            let a = chars_of(s.as_str());
            let b = chars_of(want);
            chars_eq(a.as_slice(), b.as_slice())
        },
        None => false,
    }
}

fn type_matches(t: &Option<String>, filter: Option<&str>) -> (r: bool)
    ensures
        r == match filter {
            Some(f) => opt_chars(*t) == Some(f@),
            None => true,
        },
{
    match filter {
        None => true,
        Some(f) => text_equals(t, f),
    }
}

/// The first element (pre-order) that matches the selector exactly,
/// restricted to `element_type` when given.
pub fn find_exact(
    elements: &[UIElement],
    selector: &str,
    by_label: bool,
    element_type: Option<&str>,
) -> (r: Option<UIElement>)
    ensures
        match first_exact(forest_view(elements@), selector@, by_label, opt_str_view(element_type)) {
            Some(x) => r matches Some(e) && e@ == x,
            None => r is None,
        },
    decreases elements@,
{
    let ghost fv = forest_view(elements@);
    let ghost et = opt_str_view(element_type);
    proof {
        lemma_forest_view_pointwise(elements@);
    }
    assert(fv.subrange(0, fv.len() as int) =~= fv);
    let mut i: usize = 0;
    while i < elements.len()
        invariant
            i <= elements@.len(),
            fv == forest_view(elements@),
            fv.len() == elements@.len(),
            forall|k: int| 0 <= k < elements@.len() ==> #[trigger] fv[k] == element_view(elements@[k]),
            et == opt_str_view(element_type),
            first_exact(fv, selector@, by_label, et) == first_exact(
                fv.subrange(i as int, fv.len() as int),
                selector@,
                by_label,
                et,
            ),
        decreases elements@.len() - i,
    {
        proof {
            lemma_first_exact_suffix(fv, i as int, selector@, by_label, et);
        }
        let element = &elements[i];
        let selector_matches = if by_label {
            text_equals(&element.label, selector)
        } else {
            text_equals(&element.identifier, selector)
        };
        let type_ok = type_matches(&element.element_type, element_type);
        if selector_matches && type_ok {
            return Some(element.deep_clone());
        }
        let found = find_exact(element.children.as_slice(), selector, by_label, element_type);
        if found.is_some() {
            return found;
        }
        i = i + 1;
    }
    assert(fv.subrange(i as int, fv.len() as int) =~= Seq::<ElementView>::empty());
    None
}

/// The message for an element missing from a typed search.
pub open spec fn typed_not_found_message(selector: Seq<char>, by_label: bool, t: Seq<char>) -> Seq<
    char,
> {
    "Element with "@ + (if by_label {
        "label"@
    } else {
        "ID"@
    }) + " '"@ + selector + "' and type '"@ + t + "' not found"@
}

fn typed_not_found(selector: &str, by_label: bool, element_type: &str) -> (r: AxeError)
    ensures
        r matches AxeError::CommandFailed(m) && m@ == typed_not_found_message(
            selector@,
            by_label,
            element_type@,
        ),
{
    let mut m = String::from_str("Element with ");
    if by_label {
        push_str(&mut m, "label");
    } else {
        push_str(&mut m, "ID");
    }
    push_str(&mut m, " '");
    push_str(&mut m, selector);
    push_str(&mut m, "' and type '");
    push_str(&mut m, element_type);
    push_str(&mut m, "' not found");
    AxeError::CommandFailed(m)
}

/// Wrapper for `axe` operations.
pub struct Axe;

impl Axe {
    /// The first element (pre-order) whose identifier is `identifier`.
    pub fn find_element(elements: &[UIElement], identifier: &str) -> (r: Option<UIElement>)
        ensures
            match first_exact(forest_view(elements@), identifier@, false, None) {
                Some(x) => r matches Some(e) && e@ == x,
                None => r is None,
            },
    {
        find_exact(elements, identifier, false, None)
    }

    /// The element itself or its first descendant (pre-order) whose label is
    /// `label`.
    pub fn find_element_by_label(element: &UIElement, label: &str) -> (r: Option<UIElement>)
        ensures
            match first_exact(seq![element@], label@, true, None) {
                Some(x) => r matches Some(e) && e@ == x,
                None => r is None,
            },
    {
        if text_equals(&element.label, label) {
            return Some(element.deep_clone());
        }
        let r = find_exact(element.children.as_slice(), label, true, None);
        proof {
            let s = seq![element@];
            assert(s[0] == element@);
            assert(element@.children == forest_view(element.children@));
            assert(s.drop_first() =~= Seq::<ElementView>::empty());
            assert(first_exact(s.drop_first(), label@, true, None) == None::<ElementView>);
        }
        r
    }

    /// The first element (pre-order) whose label is `label`.
    pub fn find_elements_by_label(elements: &[UIElement], label: &str) -> (r: Option<UIElement>)
        ensures
            match first_exact(forest_view(elements@), label@, true, None) {
                Some(x) => r matches Some(e) && e@ == x,
                None => r is None,
            },
    {
        find_exact(elements, label, true, None)
    }

    /// The first element (pre-order) matching the selector exactly, by label
    /// or by identifier, restricted to `element_type` when given.
    pub fn find_element_with_type(
        elements: &[UIElement],
        selector: &str,
        by_label: bool,
        element_type: Option<&str>,
    ) -> (r: Option<UIElement>)
        ensures
            match first_exact(
                forest_view(elements@),
                selector@,
                by_label,
                opt_str_view(element_type),
            ) {
                Some(x) => r matches Some(e) && e@ == x,
                None => r is None,
            },
    {
        find_exact(elements, selector, by_label, element_type)
    }

    /// The actionable elements (with an identifier or a label) of the
    /// hierarchy, in pre-order.
    pub fn list_elements(elements: &[UIElement]) -> (r: Vec<UIElement>)
        ensures
            forest_view(r@) == flatten(forest_view(elements@)),
    {
        flatten_elements(elements)
    }

    /// The value of the element with the identifier in the
    /// described hierarchy, or an error naming the missing element.
    pub fn get_element_value(hierarchy: &[UIElement], identifier: &str) -> (r: Result<
        Option<String>,
        AxeError,
    >)
        ensures
            match first_exact(forest_view(hierarchy@), identifier@, false, None) {
                Some(x) => r matches Ok(v) && opt_chars(v) == x.value,
                None => r matches Err(AxeError::CommandFailed(m)) && m@ == "Element '"@
                    + identifier@ + "' not found"@,
            },
    {
        match Self::find_element(hierarchy, identifier) {
            Some(e) => Ok(e.value),
            None => {
                let mut m = String::from_str("Element '");
                push_str(&mut m, identifier);
                push_str(&mut m, "' not found");
                Err(AxeError::CommandFailed(m))
            },
        }
    }

    /// The value of the element with the label in the
    /// described hierarchy, or an error naming the missing label.
    pub fn get_element_value_by_label(hierarchy: &[UIElement], label: &str) -> (r: Result<
        Option<String>,
        AxeError,
    >)
        ensures
            match first_exact(forest_view(hierarchy@), label@, true, None) {
                Some(x) => r matches Ok(v) && opt_chars(v) == x.value,
                None => r matches Err(AxeError::CommandFailed(m)) && m@ == "Element with label '"@
                    + label@ + "' not found"@,
            },
    {
        match Self::find_elements_by_label(hierarchy, label) {
            Some(e) => Ok(e.value),
            None => {
                let mut m = String::from_str("Element with label '");
                push_str(&mut m, label);
                push_str(&mut m, "' not found");
                Err(AxeError::CommandFailed(m))
            },
        }
    }

    /// The frame of the element to tap for a typed selector in the described
    /// hierarchy (the tap lands at its centre), or an error for a missing
    /// element or one without a frame.
    pub fn tap_with_type(
        hierarchy: &[UIElement],
        selector: &str,
        by_label: bool,
        element_type: &str,
    ) -> (r: Result<ElementFrame, AxeError>)
        ensures
            match first_exact(forest_view(hierarchy@), selector@, by_label, Some(element_type@)) {
                Some(x) => match x.frame {
                    Some(f) => r == Ok::<ElementFrame, AxeError>(f),
                    None => r matches Err(AxeError::CommandFailed(m)) && m@ == "Element has no frame"@,
                },
                None => r matches Err(AxeError::CommandFailed(m)) && m@ == typed_not_found_message(
                    selector@,
                    by_label,
                    element_type@,
                ),
            },
    {
        match Self::find_element_with_type(hierarchy, selector, by_label, Some(element_type)) {
            Some(e) => match e.frame {
                Some(f) => Ok(f),
                None => Err(AxeError::CommandFailed(String::from_str("Element has no frame"))),
            },
            None => Err(typed_not_found(selector, by_label, element_type)),
        }
    }

    /// The value of the element for a typed selector in the
    /// described hierarchy, or an error naming what is missing.
    pub fn get_value_with_type(
        hierarchy: &[UIElement],
        selector: &str,
        by_label: bool,
        element_type: &str,
    ) -> (r: Result<Option<String>, AxeError>)
        ensures
            match first_exact(forest_view(hierarchy@), selector@, by_label, Some(element_type@)) {
                Some(x) => r matches Ok(v) && opt_chars(v) == x.value,
                None => r matches Err(AxeError::CommandFailed(m)) && m@ == typed_not_found_message(
                    selector@,
                    by_label,
                    element_type@,
                ),
            },
    {
        match Self::find_element_with_type(hierarchy, selector, by_label, Some(element_type)) {
            Some(e) => Ok(e.value),
            None => Err(typed_not_found(selector, by_label, element_type)),
        }
    }

    /// The outcome of an axe command: success, or its error output.
    pub fn command_outcome(success: bool, stderr: String) -> (r: Result<(), AxeError>)
        ensures
            success ==> r is Ok,
            !success ==> (r matches Err(AxeError::CommandFailed(m)) && m == stderr),
    {
        if success {
            Ok(())
        } else {
            Err(AxeError::CommandFailed(stderr))
        }
    }

    /// The arguments of `axe` that describe the hierarchy of `udid`.
    pub fn describe_args(udid: &str) -> (r: Vec<String>)
        ensures
            strings_are(r@, seq!["describe-ui"@, "--udid"@, udid@]),
    {
        let mut r: Vec<String> = Vec::new();
        r.push(String::from_str("describe-ui"));
        r.push(String::from_str("--udid"));
        r.push(udid.to_string());
        r
    }

    /// The arguments of `axe` that tap at coordinates.
    pub fn tap_args(udid: &str, x: i32, y: i32) -> (r: Vec<String>)
        ensures
            strings_are(
                r@,
                seq!["tap"@, "-x"@, dec_int(x as int), "-y"@, dec_int(y as int), "--udid"@, udid@],
            ),
    {
        let mut xs = String::new();
        push_dec_i64(&mut xs, x as i64);
        let mut ys = String::new();
        push_dec_i64(&mut ys, y as i64);
        let mut r: Vec<String> = Vec::new();
        r.push(String::from_str("tap"));
        r.push(String::from_str("-x"));
        r.push(xs);
        r.push(String::from_str("-y"));
        r.push(ys);
        r.push(String::from_str("--udid"));
        r.push(udid.to_string());
        r
    }

    /// The arguments of `axe` that tap the element with an identifier.
    pub fn tap_element_args(udid: &str, identifier: &str) -> (r: Vec<String>)
        ensures
            strings_are(r@, seq!["tap"@, "--id"@, identifier@, "--udid"@, udid@]),
    {
        let mut r: Vec<String> = Vec::new();
        r.push(String::from_str("tap"));
        r.push(String::from_str("--id"));
        r.push(identifier.to_string());
        r.push(String::from_str("--udid"));
        r.push(udid.to_string());
        r
    }

    /// The arguments of `axe` that tap the element with a label.
    pub fn tap_by_label_args(udid: &str, label: &str) -> (r: Vec<String>)
        ensures
            strings_are(r@, seq!["tap"@, "--label"@, label@, "--udid"@, udid@]),
    {
        let mut r: Vec<String> = Vec::new();
        r.push(String::from_str("tap"));
        r.push(String::from_str("--label"));
        r.push(label.to_string());
        r.push(String::from_str("--udid"));
        r.push(udid.to_string());
        r
    }
}

} // verus!
