//! UI elements of the accessibility hierarchy, shared by every backend.

use vstd::prelude::*;

verus! {

broadcast use vstd::std_specs::vec::axiom_vec_decreases_to_view;

/// The frame (position and dimensions) of a UI element, in screen points with
/// the origin at the top-left corner.
///
/// Each coordinate is the IEEE-754 bit pattern of an `f64` (`f64::to_bits`).
#[derive(Debug, Clone, Copy, PartialEq, Eq, Structural)]
pub struct ElementFrame {
    /// The x-coordinate of the element's top-left corner.
    pub x: u64,
    /// The y-coordinate of the element's top-left corner.
    pub y: u64,
    /// The width of the element in points.
    pub width: u64,
    /// The height of the element in points.
    pub height: u64,
}

/// A UI element from the accessibility hierarchy; elements form a tree
/// through `children`.
#[derive(Debug)]
pub struct UIElement {
    /// The unique accessibility identifier (AXUniqueId).
    pub identifier: Option<String>,
    /// The accessibility label (AXLabel), typically the user-visible text.
    pub label: Option<String>,
    /// The current value of the element (AXValue).
    pub value: Option<String>,
    /// The type of UI element (e.g. "Button", "TextField").
    pub element_type: Option<String>,
    /// The element's frame in screen coordinates.
    pub frame: Option<ElementFrame>,
    /// Child elements nested within this element.
    pub children: Vec<UIElement>,
    /// The accessibility role of this element.
    pub role: Option<String>,
    /// Whether the element can receive taps.
    pub hittable: Option<bool>,
}

/// The mathematical form of a [`UIElement`].
pub struct ElementView {
    pub identifier: Option<Seq<char>>,
    pub label: Option<Seq<char>>,
    pub value: Option<Seq<char>>,
    pub element_type: Option<Seq<char>>,
    pub frame: Option<ElementFrame>,
    pub children: Seq<ElementView>,
    pub role: Option<Seq<char>>,
    pub hittable: Option<bool>,
}

/// The characters of an optional string.
pub open spec fn opt_chars(o: Option<String>) -> Option<Seq<char>> {
    match o {
        Some(s) => Some(s@),
        None => None,
    }
}

/// The mathematical form of an element and, recursively, of its children.
pub open spec fn element_view(e: UIElement) -> ElementView
    decreases e,
{
    ElementView {
        identifier: opt_chars(e.identifier),
        label: opt_chars(e.label),
        value: opt_chars(e.value),
        element_type: opt_chars(e.element_type),
        frame: e.frame,
        children: forest_view(e.children@),
        role: opt_chars(e.role),
        hittable: e.hittable,
    }
}

/// The mathematical forms of a run of elements.
pub open spec fn forest_view(s: Seq<UIElement>) -> Seq<ElementView>
    decreases s,
{
    if s.len() == 0 {
        Seq::empty()
    } else {
        forest_view(s.drop_last()).push(element_view(s.last()))
    }
}

impl View for UIElement {
    type V = ElementView;

    open spec fn view(&self) -> ElementView {
        element_view(*self)
    }
}

pub proof fn lemma_forest_view_len(s: Seq<UIElement>)
    ensures
        forest_view(s).len() == s.len(),
    decreases s.len(),
{
    if s.len() > 0 {
        lemma_forest_view_len(s.drop_last());
    }
}

pub proof fn lemma_forest_view_index(s: Seq<UIElement>, i: int)
    requires
        0 <= i < s.len(),
    ensures
        forest_view(s).len() == s.len(),
        forest_view(s)[i] == element_view(s[i]),
    decreases s.len(),
{
    lemma_forest_view_len(s);
    if i < s.len() - 1 {
        lemma_forest_view_index(s.drop_last(), i);
    }
}

/// The forms of a run of elements are the forms of its members.
pub proof fn lemma_forest_view_pointwise(s: Seq<UIElement>)
    ensures
        forest_view(s).len() == s.len(),
        forall|i: int| 0 <= i < s.len() ==> #[trigger] forest_view(s)[i] == element_view(s[i]),
{
    lemma_forest_view_len(s);
    assert forall|i: int| 0 <= i < s.len() implies #[trigger] forest_view(s)[i] == element_view(
        s[i],
    ) by {
        lemma_forest_view_index(s, i);
    }
}

/// Runs of elements with pointwise-equal forms have equal forms.
pub proof fn lemma_forest_view_ext(a: Seq<UIElement>, b: Seq<UIElement>)
    requires
        a.len() == b.len(),
        forall|i: int| 0 <= i < a.len() ==> element_view(#[trigger] a[i]) == element_view(b[i]),
    ensures
        forest_view(a) == forest_view(b),
{
    lemma_forest_view_pointwise(a);
    lemma_forest_view_pointwise(b);
    assert(forest_view(a) =~= forest_view(b));
}

/// A copy of an optional string.
pub fn clone_opt_string(o: &Option<String>) -> (r: Option<String>)
    ensures
        opt_chars(r) == opt_chars(*o),
{
    match o {
        Some(s) => Some(s.clone()),
        None => None,
    }
}

impl UIElement {
    /// A deep copy of this element and its children.
    pub fn deep_clone(&self) -> (r: UIElement)
        ensures
            r@ == self@,
        decreases self,
    {
        let mut children: Vec<UIElement> = Vec::new();
        let mut i: usize = 0;
        while i < self.children.len()
            invariant
                i <= self.children@.len(),
                children@.len() == i,
                forall|k: int|
                    0 <= k < i ==> element_view(#[trigger] children@[k]) == element_view(
                        self.children@[k],
                    ),
            decreases self.children@.len() - i,
        {
            let c = self.children[i].deep_clone();
            children.push(c);
            i = i + 1;
        }
        proof {
            lemma_forest_view_ext(children@, self.children@);
        }
        UIElement {
            identifier: clone_opt_string(&self.identifier),
            label: clone_opt_string(&self.label),
            value: clone_opt_string(&self.value),
            element_type: clone_opt_string(&self.element_type),
            frame: self.frame,
            children,
            role: clone_opt_string(&self.role),
            hittable: self.hittable,
        }
    }
}

impl Clone for UIElement {
    fn clone(&self) -> (r: Self)
        ensures
            r@ == self@,
    {
        self.deep_clone()
    }
}

} // verus!
