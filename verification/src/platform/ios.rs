//! iOS, read through an XCUITest element hierarchy.
//!
//! Not yet checked against a physical device: the rules here follow the
//! documented XCUITest attribute shape, and are a starting point to be
//! corrected against a real `source` dump.
//!
//! XCUITest reports a frame as an origin and a size in points, which may be
//! fractional; turning those into whole pixels is left to the caller, which
//! hands in each node's frame once read. Which nodes are rows, what they are
//! called and whether they take text is decided here.
use crate::act::Operation;
use crate::platform::xml::{attr, nodes_view, read_document, says, xml_document, XmlNode, XmlNodeView};
use crate::platform::HierarchyError;
use crate::platform::Platform;
use crate::snapshot::{element_views, saturate, stamped_from, texts, Bounds, Element, ElementView, Snapshot, Stamps, TooManyElements, MAX_ELEMENTS};
use crate::text::trim;
use vstd::prelude::*;

verus! {

/// iOS, driven through XCUITest and a WebDriverAgent-style session.
#[derive(Debug, Clone, Copy, Default)]
pub struct Ios;

/// What iOS offers. There is no system Back: returning is a per-screen
/// affordance, a navigation-bar button or an edge swipe, and offering one
/// would invite a choice the device cannot carry out.
pub open spec fn ios_operations() -> Seq<Operation> {
    seq![
        Operation::Tap,
        Operation::DoubleTap,
        Operation::LongPress,
        Operation::SwipeLeft,
        Operation::SwipeRight,
        Operation::Peek,
        Operation::ScrollUp,
        Operation::ScrollDown,
        Operation::Home,
        Operation::AppSwitcher,
        Operation::Submit,
        Operation::Wait,
        Operation::Done,
        Operation::Blocked,
    ]
}

/// Element types a person can act on directly: the interactive half of
/// `XCUIElementType`. Static text and containers are absent, because their
/// children, or their parents, are the targets.
pub open spec fn hittable_kinds() -> Seq<Seq<char>> {
    seq![
        "Button"@, "Cell"@, "CheckBox"@, "ColorWell"@, "ComboBox"@, "DatePicker"@, "DecrementArrow"@,
        "DisclosureTriangle"@, "IncrementArrow"@, "Key"@, "Link"@, "MenuBarItem"@, "MenuButton"@,
        "MenuItem"@, "PageIndicator"@, "Picker"@, "PickerWheel"@, "PopUpButton"@, "RadioButton"@,
        "SearchField"@, "SecureTextField"@, "SegmentedControl"@, "Slider"@, "Stepper"@, "Switch"@,
        "Tab"@, "TextField"@, "TextView"@, "Toggle"@, "ToolbarButton"@,
    ]
}

/// Element types that accept typed text.
pub open spec fn editable_kinds() -> Seq<Seq<char>> {
    seq!["SearchField"@, "SecureTextField"@, "TextField"@, "TextView"@]
}

/// The element type, from its `type` attribute or else its tag, with any
/// `XCUIElementType` prefix taken off.
pub open spec fn kind_of(n: XmlNodeView) -> Seq<char> {
    let raw = match attr(n, "type"@) {
        Some(t) => t,
        None => n.tag,
    };
    if crate::text::starts_with(raw, "XCUIElementType"@) {
        raw.skip(15)
    } else {
        raw
    }
}

/// A row a person could act on: an element of a hittable type that is
/// hittable, or, when the hierarchy does not say, neither hidden nor
/// disabled.
pub open spec fn ios_actionable(n: XmlNodeView) -> bool {
    &&& n.element
    &&& hittable_kinds().contains(kind_of(n))
    &&& match attr(n, "hittable"@) {
        Some(h) => h == "true"@,
        None => !says(n, "visible"@, "false"@) && !says(n, "enabled"@, "false"@),
    }
}

/// What an element says to a person: its accessibility label, else its
/// value, else, reluctantly, its identifier; trimmed, and nothing when all
/// are blank.
pub open spec fn ios_label(n: XmlNodeView) -> Option<Seq<char>> {
    match attr(n, "label"@) {
        Some(l) if trim(l).len() > 0 => Some(trim(l)),
        _ => match attr(n, "value"@) {
            Some(v) if trim(v).len() > 0 => Some(trim(v)),
            _ => match attr(n, "name"@) {
                Some(m) if trim(m).len() > 0 => Some(trim(m)),
                _ => None,
            },
        },
    }
}

/// An element's label as a list of one, or of none.
pub open spec fn ios_label_list(n: XmlNodeView) -> Seq<Seq<char>> {
    match ios_label(n) {
        Some(l) => seq![l],
        None => Seq::empty(),
    }
}

/// Every label under node `i` that no nested actionable element has claimed.
pub open spec fn ios_texts_under(d: Seq<XmlNodeView>, i: int, root: bool) -> Seq<Seq<char>>
    decreases d.len() - i, 1int, 0int,
{
    if i < 0 || i >= d.len() || (!root && ios_actionable(d[i])) {
        Seq::empty()
    } else {
        ios_label_list(d[i]) + ios_texts_of_children(d, i, 0)
    }
}

/// The labels under the children of node `i`, from its `k`th child on.
pub open spec fn ios_texts_of_children(d: Seq<XmlNodeView>, i: int, k: int) -> Seq<Seq<char>>
    decreases d.len() - i, 0int, d[i].children.len() - k,
{
    if i < 0 || i >= d.len() || k < 0 || k >= d[i].children.len() {
        Seq::empty()
    } else {
        let c = d[i].children[k] as int;
        (if i < c < d.len() {
            ios_texts_under(d, c, false)
        } else {
            Seq::empty()
        }) + ios_texts_of_children(d, i, k + 1)
    }
}

/// The box a frame of whole pixels describes.
pub open spec fn frame_box(f: (i32, i32, i32, i32)) -> Bounds {
    Bounds {
        left: f.0,
        top: f.1,
        right: saturate(f.0 + f.2) as i32,
        bottom: saturate(f.1 + f.3) as i32,
    }
}

/// The element node `i` is, if it is one: actionable, named, and with a
/// frame that read.
pub open spec fn ios_element_at(d: Seq<XmlNodeView>, frames: Seq<Option<(i32, i32, i32, i32)>>, i: int) -> Option<ElementView> {
    if i < 0 || i >= d.len() || !ios_actionable(d[i]) {
        None
    } else {
        let ts = ios_texts_under(d, i, true);
        if ts.len() == 0 {
            None
        } else {
            match frames[i] {
                Some(f) => Some(
                    ElementView {
                        label: ts[0],
                        detail: if ts.len() > 1 {
                            Some(ts[1])
                        } else {
                            None
                        },
                        editable: editable_kinds().contains(kind_of(d[i])),
                        bounds: frame_box(f),
                    },
                ),
                None => None,
            }
        }
    }
}

/// The elements among the first `n` nodes, in document order.
pub open spec fn ios_elements_upto(d: Seq<XmlNodeView>, frames: Seq<Option<(i32, i32, i32, i32)>>, n: int) -> Seq<ElementView>
    decreases n,
{
    if n <= 0 {
        Seq::empty()
    } else {
        let before = ios_elements_upto(d, frames, n - 1);
        match ios_element_at(d, frames, n - 1) {
            Some(e) => before.push(e),
            None => before,
        }
    }
}

proof fn lemma_ios_element_listed(d: Seq<XmlNodeView>, frames: Seq<Option<(i32, i32, i32, i32)>>, n: int, i: int)
    requires
        0 <= i < n <= d.len(),
        ios_element_at(d, frames, i) is Some,
    ensures
        ios_elements_upto(d, frames, n).contains(ios_element_at(d, frames, i)->0),
    decreases n,
{
    let e = ios_element_at(d, frames, i)->0;
    let before = ios_elements_upto(d, frames, n - 1);
    if i < n - 1 {
        lemma_ios_element_listed(d, frames, n - 1, i);
        let k = choose|k: int| 0 <= k < before.len() && before[k] == e;
        if ios_element_at(d, frames, n - 1) is Some {
            assert(before.push(ios_element_at(d, frames, n - 1)->0)[k] == before[k]);
        }
    } else {
        assert(ios_elements_upto(d, frames, n) == before.push(e));
        assert(before.push(e)[before.len() as int] == e);
    }
}

/// Every interactive kind of element is a row of the screen, named by what
/// it says and placed where its frame says: a button, cell, check box,
/// color well, combo box, date picker, arrow, disclosure triangle, key,
/// link, menu item or button, page indicator, picker or picker wheel,
/// pop-up button, radio button, search, secure or text field, segmented
/// control, slider, stepper, switch, tab, text view, toggle or toolbar
/// button is one, when it is hittable (or, where the hierarchy does not
/// say, neither hidden nor disabled), has a label, value or name that is
/// not blank, and has a frame that reads.
pub proof fn interactive_elements_are_rows(d: Seq<XmlNodeView>, frames: Seq<Option<(i32, i32, i32, i32)>>, i: int)
    requires
        0 <= i < d.len(),
        d[i].element,
        ({
            let k = kind_of(d[i]);
            ||| k == "Button"@ ||| k == "Cell"@ ||| k == "CheckBox"@ ||| k == "ColorWell"@ ||| k == "ComboBox"@
            ||| k == "DatePicker"@ ||| k == "DecrementArrow"@ ||| k == "DisclosureTriangle"@ ||| k == "IncrementArrow"@
            ||| k == "Key"@ ||| k == "Link"@ ||| k == "MenuBarItem"@ ||| k == "MenuButton"@ ||| k == "MenuItem"@
            ||| k == "PageIndicator"@ ||| k == "Picker"@ ||| k == "PickerWheel"@ ||| k == "PopUpButton"@
            ||| k == "RadioButton"@ ||| k == "SearchField"@ ||| k == "SecureTextField"@ ||| k == "SegmentedControl"@
            ||| k == "Slider"@ ||| k == "Stepper"@ ||| k == "Switch"@ ||| k == "Tab"@ ||| k == "TextField"@
            ||| k == "TextView"@ ||| k == "Toggle"@ ||| k == "ToolbarButton"@
        }),
        attr(d[i], "hittable"@) == Some("true"@) || (attr(d[i], "hittable"@) is None && !says(d[i], "visible"@, "false"@)
            && !says(d[i], "enabled"@, "false"@)),
        ios_label(d[i]) is Some,
        i < frames.len(),
        frames[i] is Some,
    ensures
        ios_element_at(d, frames, i) is Some,
        ios_element_at(d, frames, i)->0.label == ios_label(d[i])->0,
        ios_element_at(d, frames, i)->0.bounds == frame_box(frames[i]->0),
        ios_elements_upto(d, frames, d.len() as int).contains(ios_element_at(d, frames, i)->0),
{
    let ks = hittable_kinds();
    let k = kind_of(d[i]);
    assert(ks[0] == "Button"@ && ks[1] == "Cell"@ && ks[2] == "CheckBox"@ && ks[3] == "ColorWell"@);
    assert(ks[4] == "ComboBox"@ && ks[5] == "DatePicker"@ && ks[6] == "DecrementArrow"@ && ks[7] == "DisclosureTriangle"@);
    assert(ks[8] == "IncrementArrow"@ && ks[9] == "Key"@ && ks[10] == "Link"@ && ks[11] == "MenuBarItem"@);
    assert(ks[12] == "MenuButton"@ && ks[13] == "MenuItem"@ && ks[14] == "PageIndicator"@ && ks[15] == "Picker"@);
    assert(ks[16] == "PickerWheel"@ && ks[17] == "PopUpButton"@ && ks[18] == "RadioButton"@ && ks[19] == "SearchField"@);
    assert(ks[20] == "SecureTextField"@ && ks[21] == "SegmentedControl"@ && ks[22] == "Slider"@ && ks[23] == "Stepper"@);
    assert(ks[24] == "Switch"@ && ks[25] == "Tab"@ && ks[26] == "TextField"@ && ks[27] == "TextView"@);
    assert(ks[28] == "Toggle"@ && ks[29] == "ToolbarButton"@ && ks.len() == 30);
    assert(ks.contains(k));
    let ts = ios_texts_under(d, i, true);
    assert(ts == ios_label_list(d[i]) + ios_texts_of_children(d, i, 0));
    assert(ts[0] == ios_label(d[i])->0);
    lemma_ios_element_listed(d, frames, d.len() as int, i);
}

/// Whether `kind` is one of `kinds`.
fn one_of(kind: &Vec<char>, kinds: &Vec<&str>, Ghost(spelled): Ghost<Seq<Seq<char>>>) -> (r: bool)
    requires
        kinds@.len() == spelled.len(),
        forall|j: int| 0 <= j < kinds@.len() ==> (#[trigger] kinds@[j])@ == spelled[j],
    ensures
        r == spelled.contains(kind@),
{
    let mut i: usize = 0;
    while i < kinds.len()
        invariant
            i <= kinds@.len(),
            kinds@.len() == spelled.len(),
            forall|j: int| 0 <= j < kinds@.len() ==> (#[trigger] kinds@[j])@ == spelled[j],
            forall|j: int| 0 <= j < i ==> spelled[j] != kind@,
        decreases kinds@.len() - i,
    {
        let k = crate::text::chars_of(kinds[i]);
        if crate::text::same_chars(k.as_slice(), kind.as_slice()) {
            assert(spelled[i as int] == kind@);
            return true;
        }
        i = i + 1;
    }
    false
}

/// The element type, with the `XCUIElementType` prefix stripped.
fn kind_chars(node: &XmlNode) -> (r: Vec<char>)
    ensures
        r@ == kind_of(node@),
{
    let raw = match node.attribute("type") {
        Some(t) => crate::text::chars_of(t.as_str()),
        None => crate::text::chars_of(node.tag.as_str()),
    };
    let prefix = crate::text::chars_of("XCUIElementType");
    proof {
        reveal_strlit("XCUIElementType");
    }
    if crate::text::starts_with_chars(raw.as_slice(), prefix.as_slice()) {
        let r = crate::text::slice_of(raw.as_slice(), 15, raw.len());
        assert(r@ =~= raw@.skip(15));
        r
    } else {
        raw
    }
}

/// Whether an element is one a person can act on.
///
/// `hittable` answers whether a real touch would land, but costs a hit-test
/// per element and is usually omitted; without it, not hidden and not
/// disabled is the usual approximation.
fn is_actionable(node: &XmlNode) -> (r: bool)
    ensures
        r == ios_actionable(node@),
{
    if !node.element {
        return false;
    }
    let kind = kind_chars(node);
    let hittable = vec![
        "Button", "Cell", "CheckBox", "ColorWell", "ComboBox", "DatePicker", "DecrementArrow",
        "DisclosureTriangle", "IncrementArrow", "Key", "Link", "MenuBarItem", "MenuButton",
        "MenuItem", "PageIndicator", "Picker", "PickerWheel", "PopUpButton", "RadioButton",
        "SearchField", "SecureTextField", "SegmentedControl", "Slider", "Stepper", "Switch",
        "Tab", "TextField", "TextView", "Toggle", "ToolbarButton",
    ];
    if !one_of(&kind, &hittable, Ghost(hittable_kinds())) {
        return false;
    }
    match node.attribute("hittable") {
        Some(h) => crate::text::same_text(h.as_str(), "true"),
        None => !node.says("visible", "false") && !node.says("enabled", "false"),
    }
}

/// An attribute's value, trimmed, when something is left of it.
fn trimmed_attribute(node: &XmlNode, name: &str) -> (r: Option<String>)
    ensures
        match attr(node@, name@) {
            Some(v) if trim(v).len() > 0 => r matches Some(t) && t@ == trim(v),
            _ => r is None,
        },
{
    match node.attribute(name) {
        Some(v) => {
            let chars = crate::text::chars_of(v.as_str());
            let t = crate::text::trim_chars(chars.as_slice());
            if t.len() > 0 {
                Some(crate::text::string_of(t.as_slice()))
            } else {
                None
            }
        },
        None => None,
    }
}

/// What this element says to a person.
fn label_of(node: &XmlNode) -> (r: Option<String>)
    ensures
        match ios_label(node@) {
            Some(l) => r matches Some(t) && t@ == l,
            None => r is None,
        },
{
    match trimmed_attribute(node, "label") {
        Some(t) => Some(t),
        None => match trimmed_attribute(node, "value") {
            Some(t) => Some(t),
            None => trimmed_attribute(node, "name"),
        },
    }
}

/// Every label under node `i` that no nested actionable element has
/// claimed, appended to `out`. A table cell carries its title and subtitle as
/// child text, the shape Android uses, so the same descent applies.
fn collect_texts(doc: &Vec<XmlNode>, i: usize, is_root: bool, out: &mut Vec<String>)
    requires
        i < doc@.len(),
    ensures
        texts(final(out)@) == texts(old(out)@) + ios_texts_under(nodes_view(doc@), i as int, is_root),
    decreases doc@.len() - i, 1int, 0int,
{
    let ghost d = nodes_view(doc@);
    assert(d[i as int] == doc@[i as int]@);
    if !is_root && is_actionable(&doc[i]) {
        assert(texts(out@) =~= texts(old(out)@) + ios_texts_under(d, i as int, is_root));
        return;
    }
    match label_of(&doc[i]) {
        Some(label) => {
            out.push(label);
        },
        None => {},
    }
    assert(texts(out@) =~= texts(old(out)@) + ios_label_list(d[i as int]));
    let node = &doc[i];
    let ghost start = texts(out@);
    let mut k: usize = 0;
    while k < node.children.len()
        invariant
            i < doc@.len(),
            d == nodes_view(doc@),
            node@ == d[i as int],
            k <= node.children@.len(),
            start + ios_texts_of_children(d, i as int, 0) == texts(out@) + ios_texts_of_children(d, i as int, k as int),
        decreases node.children@.len() - k,
    {
        let c = node.children[k];
        let ghost before = texts(out@);
        if i < c && c < doc.len() {
            collect_texts(doc, c, false, out);
        }
        assert(texts(out@) + ios_texts_of_children(d, i as int, k + 1) =~= before + ios_texts_of_children(d, i as int, k as int));
        k = k + 1;
    }
    assert(texts(out@) =~= texts(old(out)@) + ios_texts_under(d, i as int, is_root));
}

impl Ios {
    /// Parse an XCUITest hierarchy into its nodes, refused as malformed with
    /// what the parser objected to.
    pub fn document(raw: &str) -> (r: Result<Vec<XmlNode>, HierarchyError>)
        ensures
            match xml_document(raw@) {
                Ok(nodes) => r matches Ok(d) && nodes_view(d@) == nodes,
                Err(detail) => r matches Err(HierarchyError::Malformed { detail: d }) && d@ == detail,
            },
    {
        match read_document(raw) {
            Ok(nodes) => Ok(nodes),
            Err(detail) => Err(HierarchyError::Malformed { detail }),
        }
    }

    /// The frame attributes of every node, `x`, `y`, `width` and `height`
    /// in that order, for the caller to turn into whole pixels; nothing for
    /// a node that lacks one of them.
    pub fn frame_texts(doc: &Vec<XmlNode>) -> (r: Vec<Option<(String, String, String, String)>>)
        ensures
            r@.len() == doc@.len(),
            forall|i: int| 0 <= i < doc@.len() ==> match (
                attr(doc@[i]@, "x"@),
                attr(doc@[i]@, "y"@),
                attr(doc@[i]@, "width"@),
                attr(doc@[i]@, "height"@),
            ) {
                (Some(x), Some(y), Some(w), Some(h)) => #[trigger] r@[i] matches Some(f) && f.0@ == x && f.1@ == y
                    && f.2@ == w && f.3@ == h,
                _ => r@[i] is None,
            },
    {
        let mut r: Vec<Option<(String, String, String, String)>> = Vec::new();
        let mut i: usize = 0;
        while i < doc.len()
            invariant
                i <= doc@.len(),
                r@.len() == i,
                forall|j: int| 0 <= j < i ==> match (
                    attr(doc@[j]@, "x"@),
                    attr(doc@[j]@, "y"@),
                    attr(doc@[j]@, "width"@),
                    attr(doc@[j]@, "height"@),
                ) {
                    (Some(x), Some(y), Some(w), Some(h)) => #[trigger] r@[j] matches Some(f) && f.0@ == x && f.1@ == y
                        && f.2@ == w && f.3@ == h,
                    _ => r@[j] is None,
                },
            decreases doc@.len() - i,
        {
            let n = &doc[i];
            let frame = match (n.attribute("x"), n.attribute("y"), n.attribute("width"), n.attribute("height")) {
                (Some(x), Some(y), Some(w), Some(h)) => Some((x.clone(), y.clone(), w.clone(), h.clone())),
                _ => None,
            };
            r.push(frame);
            i = i + 1;
        }
        r
    }

    /// Read a parsed hierarchy into an observation, given each node's frame
    /// in whole pixels where it read as one.
    ///
    /// A node is a row when it is actionable and has something to be called;
    /// its first label names it and its second is its detail. Refused with
    /// [`TooManyElements`] when more rows were found than one judgment can
    /// address.
    pub fn snapshot_of(doc: &Vec<XmlNode>, frames: &Vec<Option<(i32, i32, i32, i32)>>, stamps: &mut Stamps) -> (r: Result<Snapshot, TooManyElements>)
        requires
            frames@.len() == doc@.len(),
        ensures
            stamped_from(r, *old(stamps), *final(stamps)),
            ({
                let els = ios_elements_upto(nodes_view(doc@), frames@, doc@.len() as int);
                &&& els.len() > MAX_ELEMENTS <==> r is Err
                &&& r matches Err(e) ==> e.found == els.len() && e.limit == MAX_ELEMENTS
                &&& r matches Ok(s) ==> s@.elements == els && !s@.keyboard_open && s@.app is None && s@.notices.len() == 0
            }),
    {
        let ghost d = nodes_view(doc@);
        let editable = vec!["SearchField", "SecureTextField", "TextField", "TextView"];
        let mut elements: Vec<Element> = Vec::new();
        let mut i: usize = 0;
        while i < doc.len()
            invariant
                i <= doc@.len(),
                frames@.len() == doc@.len(),
                d == nodes_view(doc@),
                editable@.len() == editable_kinds().len(),
                forall|j: int| 0 <= j < editable@.len() ==> (#[trigger] editable@[j])@ == editable_kinds()[j],
                element_views(elements@) == ios_elements_upto(d, frames@, i as int),
            decreases doc@.len() - i,
        {
            assert(d[i as int] == doc@[i as int]@);
            let node = &doc[i];
            if is_actionable(node) {
                let mut found: Vec<String> = Vec::new();
                collect_texts(doc, i, true, &mut found);
                assert(texts(found@) =~= ios_texts_under(d, i as int, true));
                if found.len() > 0 {
                    match frames[i] {
                        Some(f) => {
                            let kind = kind_chars(node);
                            let label = found[0].clone();
                            let detail = if found.len() > 1 {
                                Some(found[1].clone())
                            } else {
                                None
                            };
                            let e = Element {
                                label,
                                detail,
                                editable: one_of(&kind, &editable, Ghost(editable_kinds())),
                                bounds: Bounds::from_origin_size(f.0, f.1, f.2, f.3),
                            };
                            elements.push(e);
                        },
                        None => {},
                    }
                }
            }
            assert(element_views(elements@) =~= ios_elements_upto(d, frames@, i + 1));
            i = i + 1;
        }
        Snapshot::new(elements, stamps)
    }
}

impl Platform for Ios {
    open spec fn offered(&self) -> Seq<Operation> {
        ios_operations()
    }

    open spec fn title(&self) -> Seq<char> {
        "iOS"@
    }

    fn name(&self) -> &'static str {
        "iOS"
    }

    fn operations(&self) -> (ops: Vec<Operation>) {
        let ops = vec![
            Operation::Tap,
            Operation::DoubleTap,
            Operation::LongPress,
            Operation::SwipeLeft,
            Operation::SwipeRight,
            Operation::Peek,
            Operation::ScrollUp,
            Operation::ScrollDown,
            Operation::Home,
            Operation::AppSwitcher,
            Operation::Submit,
            Operation::Wait,
            Operation::Done,
            Operation::Blocked,
        ];
        assert(ops@ =~= ios_operations());
        ops
    }
}

} // verus!
