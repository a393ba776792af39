//! Android, read through a UIAutomator hierarchy dump, or the helper's dump
//! in the same shape.
//!
//! Each node of the dump is judged by its own attributes and those of the
//! nodes around it. The rules are stated here over the parsed tree, and every
//! reading of a screen is proved to follow them.
use crate::act::Operation;
use crate::platform::xml::{attr, nodes_view, read_document, says, xml_document, XmlNode, XmlNodeView};
use crate::platform::{HierarchyError, Platform};
use crate::snapshot::{element_views, stamped_from, texts, Bounds, Element, ElementView, Snapshot, SnapshotView, Stamps, TooManyElements, MAX_ELEMENTS};
use crate::text::{contains, is_digit, parse_i32, trim};
use vstd::prelude::*;

verus! {

/// Android, driven through `uiautomator dump` and `adb shell input`.
#[derive(Debug, Clone, Copy, Default)]
pub struct Android;

/// What Android offers: every navigation gesture exists as a system action,
/// whether the device draws it as a button or as a gesture area.
pub open spec fn android_operations() -> Seq<Operation> {
    seq![
        Operation::Tap,
        Operation::DoubleTap,
        Operation::LongPress,
        Operation::SwipeLeft,
        Operation::SwipeRight,
        Operation::ScrollUp,
        Operation::ScrollDown,
        Operation::Back,
        Operation::CloseKeyboard,
        Operation::Home,
        Operation::AppSwitcher,
        Operation::Submit,
        Operation::Wait,
        Operation::Done,
        Operation::Blocked,
    ]
}

/// The status bar, navigation bar and notification shade, which are drawn
/// over every screen and belong to none of them.
pub const SYSTEM_CHROME: &'static str = "com.android.systemui";

/// How many notices travel with a screen: a bound on what is sent to a model
/// on every step, so a dense screen does not crowd out its rows.
pub const MAX_NOTICES: usize = 24;

/// The root of the soft keyboard's window.
pub open spec fn input_method_window(n: XmlNodeView) -> bool {
    says(n, "window-type"@, "input_method"@)
}

/// Whether text can be typed into a node: its own `editable` answer when it
/// gives one, and otherwise whether its class is an `EditText`.
pub open spec fn editable_node(n: XmlNodeView) -> bool {
    match attr(n, "editable"@) {
        Some(t) => t == "true"@,
        None => match attr(n, "class"@) {
            Some(class) => contains(class, "EditText"@),
            None => false,
        },
    }
}

/// A row a person could act on: an enabled `node` element that is
/// clickable, long-clickable, checkable, or editable.
pub open spec fn actionable_node(n: XmlNodeView) -> bool {
    &&& n.element
    &&& n.tag == "node"@
    &&& !says(n, "enabled"@, "false"@)
    &&& (says(n, "clickable"@, "true"@) || says(n, "long-clickable"@, "true"@) || says(
        n,
        "checkable"@,
        "true"@,
    ) || editable_node(n))
}

/// Whether node `i` or one of the nodes it sits in is the keyboard's window.
pub open spec fn in_keyboard(d: Seq<XmlNodeView>, i: int) -> bool
    decreases i,
{
    if i < 0 || i >= d.len() {
        false
    } else if input_method_window(d[i]) {
        true
    } else {
        match d[i].parent {
            Some(up) => up < i && in_keyboard(d, up as int),
            None => false,
        }
    }
}

/// Whether node `i` or one of the nodes it sits in is actionable.
pub open spec fn under_actionable(d: Seq<XmlNodeView>, i: int) -> bool
    decreases i,
{
    if i < 0 || i >= d.len() {
        false
    } else if actionable_node(d[i]) {
        true
    } else {
        match d[i].parent {
            Some(up) => up < i && under_actionable(d, up as int),
            None => false,
        }
    }
}

/// What a node says: its text, or failing that its accessibility label,
/// trimmed; nothing when both are blank.
pub open spec fn node_label(n: XmlNodeView) -> Option<Seq<char>> {
    match attr(n, "text"@) {
        Some(t) if trim(t).len() > 0 => Some(trim(t)),
        _ => match attr(n, "content-desc"@) {
            Some(c) if trim(c).len() > 0 => Some(trim(c)),
            _ => None,
        },
    }
}

/// What an empty field is called, as opposed to what it holds.
pub open spec fn node_hint(n: XmlNodeView) -> Option<Seq<char>> {
    match attr(n, "hint"@) {
        Some(h) if trim(h).len() > 0 => Some(trim(h)),
        _ => None,
    }
}

/// A node's label as a list of one, or of none.
pub open spec fn label_list(n: XmlNodeView) -> Seq<Seq<char>> {
    match node_label(n) {
        Some(l) => seq![l],
        None => Seq::empty(),
    }
}

/// Every label under node `i`, in document order, that no nested actionable
/// row has claimed; `root` says whether `i` is the row being labelled.
pub open spec fn texts_under(d: Seq<XmlNodeView>, i: int, root: bool) -> Seq<Seq<char>>
    decreases d.len() - i, 1int, 0int,
{
    if i < 0 || i >= d.len() || (!root && actionable_node(d[i])) {
        Seq::empty()
    } else {
        label_list(d[i]) + texts_of_children(d, i, 0)
    }
}

/// The labels under the children of node `i`, from its `k`th child on.
pub open spec fn texts_of_children(d: Seq<XmlNodeView>, i: int, k: int) -> Seq<Seq<char>>
    decreases d.len() - i, 0int, d[i].children.len() - k,
{
    if i < 0 || i >= d.len() || k < 0 || k >= d[i].children.len() {
        Seq::empty()
    } else {
        let c = d[i].children[k] as int;
        (if i < c < d.len() {
            texts_under(d, c, false)
        } else {
            Seq::empty()
        }) + texts_of_children(d, i, k + 1)
    }
}

/// Whether a character belongs to a number in a bounds attribute.
pub open spec fn numeric(c: char) -> bool {
    is_digit(c) || c == '-'
}

/// A finished run of characters, as the number it spells, if it spells one.
pub open spec fn run_number(run: Seq<char>) -> Seq<i32> {
    match parse_i32(run) {
        Some(n) => seq![n],
        None => Seq::empty(),
    }
}

/// The numbers in `s` from `i` on, `run` being the digits already gathered:
/// `s` split at every character that is neither a digit nor `-`, each piece
/// parsed as an `i32`, and the pieces that are not one dropped.
pub open spec fn numbers_in(s: Seq<char>, i: int, run: Seq<char>) -> Seq<i32>
    decreases s.len() - i,
{
    if i < 0 || i >= s.len() {
        run_number(run)
    } else if numeric(s[i]) {
        numbers_in(s, i + 1, run.push(s[i]))
    } else {
        run_number(run) + numbers_in(s, i + 1, Seq::empty())
    }
}

/// UIAutomator's `[left,top][right,bottom]`: exactly four numbers.
pub open spec fn bounds_text(s: Seq<char>) -> Option<Bounds> {
    let ns = numbers_in(s, 0, Seq::empty());
    if ns.len() == 4 {
        Some(Bounds { left: ns[0], top: ns[1], right: ns[2], bottom: ns[3] })
    } else {
        None
    }
}

/// The element node `i` is, if it is one: outside the keyboard, actionable,
/// with a name, and with bounds that read. It is named by its first label,
/// or, when it has none and is a field, by its hint or for what it is; its
/// second label is its detail.
pub open spec fn element_at(d: Seq<XmlNodeView>, i: int) -> Option<ElementView> {
    if i < 0 || i >= d.len() || in_keyboard(d, i) || !actionable_node(d[i]) {
        None
    } else {
        let n = d[i];
        let editable = editable_node(n);
        let ts = texts_under(d, i, true);
        let label = if ts.len() > 0 {
            Some(ts[0])
        } else if editable {
            Some(
                match node_hint(n) {
                    Some(h) => h,
                    None => "text field"@,
                },
            )
        } else {
            None
        };
        match (label, attr(n, "bounds"@)) {
            (Some(label), Some(b)) => match bounds_text(b) {
                Some(bounds) => Some(
                    ElementView {
                        label,
                        detail: if ts.len() > 1 {
                            Some(ts[1])
                        } else {
                            None
                        },
                        editable,
                        bounds,
                    },
                ),
                None => None,
            },
            _ => None,
        }
    }
}

/// The elements among the first `n` nodes, in document order.
pub open spec fn elements_upto(d: Seq<XmlNodeView>, n: int) -> Seq<ElementView>
    decreases n,
{
    if n <= 0 {
        Seq::empty()
    } else {
        let before = elements_upto(d, n - 1);
        match element_at(d, n - 1) {
            Some(e) => before.push(e),
            None => before,
        }
    }
}

/// Every element of a screen, in document order.
pub open spec fn screen_elements(d: Seq<XmlNodeView>) -> Seq<ElementView> {
    elements_upto(d, d.len() as int)
}

proof fn lemma_element_listed(d: Seq<XmlNodeView>, n: int, i: int)
    requires
        0 <= i < n <= d.len(),
        element_at(d, i) is Some,
    ensures
        elements_upto(d, n).contains(element_at(d, i)->0),
    decreases n,
{
    if i < n - 1 {
        lemma_element_listed(d, n - 1, i);
        let before = elements_upto(d, n - 1);
        let k = choose|k: int| 0 <= k < before.len() && before[k] == element_at(d, i)->0;
        if element_at(d, n - 1) is Some {
            assert(before.push(element_at(d, n - 1)->0)[k] == before[k]);
        }
    } else {
        let before = elements_upto(d, n - 1);
        assert(elements_upto(d, n) == before.push(element_at(d, i)->0));
        assert(before.push(element_at(d, i)->0)[before.len() as int] == element_at(d, i)->0);
    }
}

/// A node a person can act on is a row of the screen, named by what it says
/// and placed where its bounds say: any enabled `node` marked clickable,
/// long-clickable or checkable, with a text or description that is not
/// blank and bounds that read, outside the keyboard's window. A toggle that
/// is only checkable is a row like a button.
pub proof fn marked_nodes_are_rows(d: Seq<XmlNodeView>, i: int)
    requires
        0 <= i < d.len(),
        d[i].element,
        d[i].tag == "node"@,
        !says(d[i], "enabled"@, "false"@),
        says(d[i], "clickable"@, "true"@) || says(d[i], "long-clickable"@, "true"@) || says(d[i], "checkable"@, "true"@),
        node_label(d[i]) is Some,
        attr(d[i], "bounds"@) is Some,
        bounds_text(attr(d[i], "bounds"@)->0) is Some,
        !in_keyboard(d, i),
    ensures
        element_at(d, i) is Some,
        element_at(d, i)->0.label == node_label(d[i])->0,
        element_at(d, i)->0.bounds == bounds_text(attr(d[i], "bounds"@)->0)->0,
        screen_elements(d).contains(element_at(d, i)->0),
{
    let ts = texts_under(d, i, true);
    assert(ts == label_list(d[i]) + texts_of_children(d, i, 0));
    assert(ts[0] == node_label(d[i])->0);
    lemma_element_listed(d, d.len() as int, i);
}

/// Whether the screen has the soft keyboard up.
pub open spec fn shows_keyboard(d: Seq<XmlNodeView>) -> bool {
    exists|i: int| 0 <= i < d.len() && input_method_window(#[trigger] d[i])
}

/// The packages named among the first `n` nodes, system chrome left out.
pub open spec fn packages_upto(d: Seq<XmlNodeView>, n: int) -> Seq<Seq<char>>
    decreases n,
{
    if n <= 0 {
        Seq::empty()
    } else {
        let before = packages_upto(d, n - 1);
        match attr(d[n - 1], "package"@) {
            Some(p) => if p == SYSTEM_CHROME@ {
                before
            } else {
                before.push(p)
            },
            None => before,
        }
    }
}

/// How many times `p` occurs in `ps`.
pub open spec fn count_in(ps: Seq<Seq<char>>, p: Seq<char>) -> nat
    decreases ps.len(),
{
    if ps.len() == 0 {
        0
    } else {
        count_in(ps.drop_last(), p) + if ps.last() == p {
            1nat
        } else {
            0nat
        }
    }
}

/// Whether `ps[j]` is the first occurrence of its value.
pub open spec fn first_seen(ps: Seq<Seq<char>>, j: int) -> bool {
    0 <= j < ps.len() && forall|k: int| 0 <= k < j ==> ps[k] != ps[j]
}

/// Whether `ps[j]` is the first occurrence of the value seen most often,
/// the value first seen latest winning a tie.
pub open spec fn most_seen(ps: Seq<Seq<char>>, j: int) -> bool {
    &&& first_seen(ps, j)
    &&& forall|k: int|
        #[trigger] first_seen(ps, k) ==> count_in(ps, ps[k]) < count_in(ps, ps[j]) || (count_in(
            ps,
            ps[k],
        ) == count_in(ps, ps[j]) && k <= j)
}

/// The value seen most often in `ps`, the one first seen latest among those
/// tied; nothing when `ps` is empty.
pub open spec fn busiest(ps: Seq<Seq<char>>) -> Option<Seq<char>> {
    if exists|j: int| most_seen(ps, j) {
        Some(ps[choose|j: int| most_seen(ps, j)])
    } else {
        None
    }
}

/// The first node, from `i` on, that labels itself the application window.
pub open spec fn first_application(d: Seq<XmlNodeView>, i: int) -> Option<int>
    decreases d.len() - i,
{
    if i < 0 || i >= d.len() {
        None
    } else if says(d[i], "window-type"@, "application"@) {
        Some(i)
    } else {
        first_application(d, i + 1)
    }
}

/// Which application a screen belongs to: the package of the window that
/// says it is the application, or, when no window says so with a package,
/// the package that owns most of the tree, system chrome set aside.
pub open spec fn screen_app(d: Seq<XmlNodeView>) -> Option<Seq<char>> {
    let tally = busiest(packages_upto(d, d.len() as int));
    match first_application(d, 0) {
        Some(i) => match attr(d[i], "package"@) {
            Some(p) => Some(p),
            None => tally,
        },
        None => tally,
    }
}

/// What node `i` says that is not the name of something to act on: its
/// label, when neither it nor anything above it is actionable or the
/// keyboard.
pub open spec fn notice_at(d: Seq<XmlNodeView>, i: int) -> Option<Seq<char>> {
    if in_keyboard(d, i) || under_actionable(d, i) {
        None
    } else {
        node_label(d[i])
    }
}

/// The notices among the first `n` nodes: each said once, and no more than
/// [`MAX_NOTICES`] of them.
pub open spec fn notices_upto(d: Seq<XmlNodeView>, n: int) -> Seq<Seq<char>>
    decreases n,
{
    if n <= 0 {
        Seq::empty()
    } else {
        let before = notices_upto(d, n - 1);
        if before.len() >= MAX_NOTICES {
            before
        } else {
            match notice_at(d, n - 1) {
                Some(l) => if before.contains(l) {
                    before
                } else {
                    before.push(l)
                },
                None => before,
            }
        }
    }
}

/// What a screen says, in document order.
pub open spec fn screen_notices(d: Seq<XmlNodeView>) -> Seq<Seq<char>> {
    notices_upto(d, d.len() as int)
}

/// Whether `s` is the reading of the tree `d`: its elements, whether the
/// keyboard is up, its application and its notices, and nothing else.
pub open spec fn reads_as(d: Seq<XmlNodeView>, s: SnapshotView) -> bool {
    &&& s.elements == screen_elements(d)
    &&& s.keyboard_open == shows_keyboard(d)
    &&& s.app == screen_app(d)
    &&& s.notices == screen_notices(d)
    &&& s.unavailable.len() == 0
    &&& s.quiet_for_ms is None
}

/// Whether this node is the root of the soft keyboard's window.
fn is_input_method_window(node: &XmlNode) -> (r: bool)
    ensures
        r == input_method_window(node@),
{
    node.says("window-type", "input_method")
}

/// Whether text can be typed into this node.
///
/// The `editable` trait is the node's own answer and is what the helper
/// reports, whatever toolkit drew the screen. `uiautomator` dumps carry no
/// such attribute, so there the class name is the only signal there is.
fn is_editable(node: &XmlNode) -> (r: bool)
    ensures
        r == editable_node(node@),
{
    match node.attribute("editable") {
        Some(t) => crate::text::same_text(t.as_str(), "true"),
        None => match node.attribute("class") {
            Some(class) => {
                let chars = crate::text::chars_of(class.as_str());
                let wanted = crate::text::chars_of("EditText");
                crate::text::contains_chars(chars.as_slice(), wanted.as_slice())
            },
            None => false,
        },
    }
}

/// A row a person could act on.
///
/// Three flags each map to a distinct gesture, and a control may carry only
/// one of them, so each is enough. `enabled` is checked separately: a
/// greyed-out button keeps `clickable`, and offering it hands the model a
/// choice that silently does nothing.
fn is_actionable(node: &XmlNode) -> (r: bool)
    ensures
        r == actionable_node(node@),
{
    if !node.element || !crate::text::same_text(node.tag.as_str(), "node") || node.says(
        "enabled",
        "false",
    ) {
        return false;
    }
    node.says("clickable", "true") || node.says("long-clickable", "true") || node.says(
        "checkable",
        "true",
    ) || is_editable(node)
}

/// Whether node `i` belongs to the soft keyboard's window. Only the window's
/// root carries `window-type`, so the question is about ancestry.
fn within_input_method(doc: &Vec<XmlNode>, i: usize) -> (r: bool)
    requires
        i < doc@.len(),
    ensures
        r == in_keyboard(nodes_view(doc@), i as int),
{
    let ghost d = nodes_view(doc@);
    let mut at = i;
    loop
        invariant
            at < doc@.len(),
            d == nodes_view(doc@),
            in_keyboard(d, i as int) == in_keyboard(d, at as int),
        decreases at,
    {
        assert(d[at as int] == doc@[at as int]@);
        if is_input_method_window(&doc[at]) {
            return true;
        }
        match doc[at].parent {
            Some(up) => {
                if up < at {
                    at = up;
                } else {
                    return false;
                }
            },
            None => {
                return false;
            },
        }
    }
}

/// Whether node `i`, or a node it sits in, is actionable.
fn within_actionable(doc: &Vec<XmlNode>, i: usize) -> (r: bool)
    requires
        i < doc@.len(),
    ensures
        r == under_actionable(nodes_view(doc@), i as int),
{
    let ghost d = nodes_view(doc@);
    let mut at = i;
    loop
        invariant
            at < doc@.len(),
            d == nodes_view(doc@),
            under_actionable(d, i as int) == under_actionable(d, at as int),
        decreases at,
    {
        assert(d[at as int] == doc@[at as int]@);
        if is_actionable(&doc[at]) {
            return true;
        }
        match doc[at].parent {
            Some(up) => {
                if up < at {
                    at = up;
                } else {
                    return false;
                }
            },
            None => {
                return false;
            },
        }
    }
}

/// An attribute's value, trimmed, when something is left of it.
fn trimmed_attribute(node: &XmlNode, name: &str) -> (r: Option<String>)
    ensures
        match attr(node@, name@) {
            Some(v) if trim(v).len() > 0 => r matches Some(t) && t@ == trim(v),
            _ => r is None,
        },
{
    match node.attribute(name) {
        Some(v) => {
            let chars = crate::text::chars_of(v.as_str());
            let t = crate::text::trim_chars(chars.as_slice());
            if t.len() > 0 {
                Some(crate::text::string_of(t.as_slice()))
            } else {
                None
            }
        },
        None => None,
    }
}

/// An element speaks through its text, or failing that its accessibility
/// label.
fn label_of(node: &XmlNode) -> (r: Option<String>)
    ensures
        match node_label(node@) {
            Some(l) => r matches Some(t) && t@ == l,
            None => r is None,
        },
{
    match trimmed_attribute(node, "text") {
        Some(t) => Some(t),
        None => trimmed_attribute(node, "content-desc"),
    }
}

/// What an empty field is called. A field showing its hint contains nothing,
/// so this is deliberately not part of [`label_of`].
fn hint_of(node: &XmlNode) -> (r: Option<String>)
    ensures
        match node_hint(node@) {
            Some(h) => r matches Some(t) && t@ == h,
            None => r is None,
        },
{
    trimmed_attribute(node, "hint")
}

/// UIAutomator writes bounds as `[left,top][right,bottom]`.
pub fn parse_bounds(raw: &str) -> (r: Option<Bounds>)
    ensures
        r == bounds_text(raw@),
{
    let chars = crate::text::chars_of(raw);
    let mut numbers: Vec<i32> = Vec::new();
    let mut run: Vec<char> = Vec::new();
    let mut i: usize = 0;
    while i < chars.len()
        invariant
            i <= chars@.len(),
            chars@ == raw@,
            numbers@ + numbers_in(raw@, i as int, run@) == numbers_in(raw@, 0, Seq::empty()),
        decreases chars@.len() - i,
    {
        let c = chars[i];
        if crate::text::char_is_digit(c) || c == '-' {
            run.push(c);
        } else {
            assert(run@.subrange(0, run@.len() as int) =~= run@);
            match crate::text::i32_between(run.as_slice(), 0, run.len()) {
                Some(n) => {
                    numbers.push(n);
                },
                None => {},
            }
            assert(numbers@ + numbers_in(raw@, i + 1, Seq::empty()) =~= numbers_in(raw@, 0, Seq::empty()));
            run = Vec::new();
        }
        i = i + 1;
    }
    assert(run@.subrange(0, run@.len() as int) =~= run@);
    match crate::text::i32_between(run.as_slice(), 0, run.len()) {
        Some(n) => {
            numbers.push(n);
        },
        None => {},
    }
    assert(numbers@ =~= numbers_in(raw@, 0, Seq::empty()));
    if numbers.len() == 4 {
        Some(Bounds { left: numbers[0], top: numbers[1], right: numbers[2], bottom: numbers[3] })
    } else {
        None
    }
}

/// Every label under node `i` that no nested actionable row has already
/// claimed, appended to `out`.
///
/// A Settings row is a clickable container holding a title and a subtitle in
/// child views, with no text of its own. Stopping the descent at a nested
/// actionable node keeps each row's text with that row, so a list item does
/// not absorb the label of a button inside it.
fn collect_texts(doc: &Vec<XmlNode>, i: usize, is_root: bool, out: &mut Vec<String>)
    requires
        i < doc@.len(),
    ensures
        texts(final(out)@) == texts(old(out)@) + texts_under(nodes_view(doc@), i as int, is_root),
    decreases doc@.len() - i, 1int, 0int,
{
    let ghost d = nodes_view(doc@);
    assert(d[i as int] == doc@[i as int]@);
    if !is_root && is_actionable(&doc[i]) {
        assert(texts(out@) =~= texts(old(out)@) + texts_under(d, i as int, is_root));
        return;
    }
    match label_of(&doc[i]) {
        Some(label) => {
            out.push(label);
        },
        None => {},
    }
    assert(texts(out@) =~= texts(old(out)@) + label_list(d[i as int]));
    let node = &doc[i];
    let ghost start = texts(out@);
    let mut k: usize = 0;
    while k < node.children.len()
        invariant
            i < doc@.len(),
            d == nodes_view(doc@),
            node@ == d[i as int],
            k <= node.children@.len(),
            start + texts_of_children(d, i as int, 0) == texts(out@) + texts_of_children(d, i as int, k as int),
        decreases node.children@.len() - k,
    {
        let c = node.children[k];
        let ghost before = texts(out@);
        if i < c && c < doc.len() {
            collect_texts(doc, c, false, out);
        }
        assert(texts(out@) + texts_of_children(d, i as int, k + 1) =~= before + texts_of_children(d, i as int, k as int));
        k = k + 1;
    }
    assert(texts(out@) =~= texts(old(out)@) + texts_under(d, i as int, is_root));
}

/// The element node `i` stands for, if it stands for one.
fn element_of(doc: &Vec<XmlNode>, i: usize) -> (r: Option<Element>)
    requires
        i < doc@.len(),
    ensures
        match element_at(nodes_view(doc@), i as int) {
            Some(e) => r matches Some(x) && x@ == e,
            None => r is None,
        },
{
    let ghost d = nodes_view(doc@);
    assert(d[i as int] == doc@[i as int]@);
    let node = &doc[i];
    if within_input_method(doc, i) || !is_actionable(node) {
        return None;
    }
    let editable = is_editable(node);
    let mut found: Vec<String> = Vec::new();
    collect_texts(doc, i, true, &mut found);
    assert(texts(found@) =~= texts_under(d, i as int, true));
    let label = if found.len() > 0 {
        found[0].clone()
    } else if editable {
        match hint_of(node) {
            Some(h) => h,
            None => String::from_str("text field"),
        }
    } else {
        return None;
    };
    let bounds = match node.attribute("bounds") {
        Some(raw) => match parse_bounds(raw.as_str()) {
            Some(b) => b,
            None => {
                return None;
            },
        },
        None => {
            return None;
        },
    };
    let detail = if found.len() > 1 {
        Some(found[1].clone())
    } else {
        None
    };
    Some(Element { label, detail, editable, bounds })
}

/// Whether a screen has the soft keyboard up.
fn shows_input_method(doc: &Vec<XmlNode>) -> (r: bool)
    ensures
        r == shows_keyboard(nodes_view(doc@)),
{
    let ghost d = nodes_view(doc@);
    let mut i: usize = 0;
    while i < doc.len()
        invariant
            i <= doc@.len(),
            d == nodes_view(doc@),
            forall|k: int| 0 <= k < i ==> !input_method_window(#[trigger] d[k]),
        decreases doc@.len() - i,
    {
        assert(d[i as int] == doc@[i as int]@);
        if is_input_method_window(&doc[i]) {
            return true;
        }
        i = i + 1;
    }
    false
}

/// How many of `ps` equal `ps[j]`.
fn count_of(ps: &Vec<String>, j: usize) -> (r: usize)
    requires
        j < ps@.len(),
    ensures
        r == count_in(texts(ps@), texts(ps@)[j as int]),
{
    let ghost v = texts(ps@);
    let mut n: usize = 0;
    let mut k: usize = 0;
    while k < ps.len()
        invariant
            k <= ps@.len(),
            j < ps@.len(),
            v == texts(ps@),
            n <= k,
            n == count_in(v.take(k as int), v[j as int]),
        decreases ps@.len() - k,
    {
        assert(v.take(k + 1).drop_last() =~= v.take(k as int));
        if crate::text::same_text(ps[k].as_str(), ps[j].as_str()) {
            n = n + 1;
        }
        k = k + 1;
    }
    assert(v.take(k as int) =~= v);
    n
}

/// Whether `ps[j]` is the first occurrence of its value.
fn seen_first(ps: &Vec<String>, j: usize) -> (r: bool)
    requires
        j < ps@.len(),
    ensures
        r == first_seen(texts(ps@), j as int),
{
    let ghost v = texts(ps@);
    let mut k: usize = 0;
    while k < j
        invariant
            k <= j < ps@.len(),
            v == texts(ps@),
            forall|e: int| 0 <= e < k ==> v[e] != v[j as int],
        decreases j - k,
    {
        if crate::text::same_text(ps[k].as_str(), ps[j].as_str()) {
            assert(v[k as int] == ps@[k as int]@ && v[j as int] == ps@[j as int]@);
            return false;
        }
        k = k + 1;
    }
    true
}

/// Only one value can be the one seen most often.
proof fn lemma_most_seen_unique(ps: Seq<Seq<char>>, j: int, k: int)
    requires
        most_seen(ps, j),
        most_seen(ps, k),
    ensures
        j == k,
{
    assert(first_seen(ps, k));
    assert(first_seen(ps, j));
}

/// The package that owns most of the tree, the one first seen latest winning
/// a tie.
fn busiest_package(ps: &Vec<String>) -> (r: Option<String>)
    ensures
        match busiest(texts(ps@)) {
            Some(p) => r matches Some(t) && t@ == p,
            None => r is None,
        },
{
    let ghost v = texts(ps@);
    let mut best: Option<usize> = None;
    let mut best_count: usize = 0;
    let mut j: usize = 0;
    while j < ps.len()
        invariant
            j <= ps@.len(),
            v == texts(ps@),
            best is None ==> j == 0,
            best matches Some(b) ==> ({
                &&& b < j
                &&& first_seen(v, b as int)
                &&& best_count == count_in(v, v[b as int])
                &&& forall|k: int|
                    0 <= k < j && #[trigger] first_seen(v, k) ==> count_in(v, v[k]) < best_count || (
                    count_in(v, v[k]) == best_count && k <= b)
            }),
        decreases ps@.len() - j,
    {
        if seen_first(ps, j) {
            let c = count_of(ps, j);
            let better = match best {
                None => true,
                Some(_) => c >= best_count,
            };
            if better {
                best = Some(j);
                best_count = c;
            }
        }
        j = j + 1;
    }
    match best {
        Some(b) => {
            proof {
                assert(most_seen(v, b as int));
                let w = choose|w: int| most_seen(v, w);
                lemma_most_seen_unique(v, w, b as int);
            }
            Some(ps[b].clone())
        },
        None => {
            proof {
                assert forall|w: int| !most_seen(v, w) by {}
            }
            None
        },
    }
}

/// The first node that labels itself the application window.
fn application_window(doc: &Vec<XmlNode>) -> (r: Option<usize>)
    ensures
        r matches Some(i) ==> first_application(nodes_view(doc@), 0) == Some(i as int) && i < doc@.len(),
        r is None ==> first_application(nodes_view(doc@), 0) is None,
{
    let ghost d = nodes_view(doc@);
    let mut i: usize = 0;
    while i < doc.len()
        invariant
            i <= doc@.len(),
            d == nodes_view(doc@),
            first_application(d, 0) == first_application(d, i as int),
        decreases doc@.len() - i,
    {
        assert(d[i as int] == doc@[i as int]@);
        if doc[i].says("window-type", "application") {
            return Some(i);
        }
        i = i + 1;
    }
    None
}

/// Which application this screen belongs to.
///
/// A helper dump labels its windows, and exactly one of them is the
/// application, so the answer is read rather than guessed. `uiautomator`
/// dumps carry no window metadata, so there the answer is whichever package
/// owns most of the tree, with system chrome set aside.
fn app_of(doc: &Vec<XmlNode>) -> (r: Option<String>)
    ensures
        match screen_app(nodes_view(doc@)) {
            Some(p) => r matches Some(t) && t@ == p,
            None => r is None,
        },
{
    let ghost d = nodes_view(doc@);
    match application_window(doc) {
        Some(i) => {
            assert(d[i as int] == doc@[i as int]@);
            match doc[i].attribute("package") {
                Some(p) => {
                    return Some(p.clone());
                },
                None => {},
            }
        },
        None => {},
    }
    let mut packages: Vec<String> = Vec::new();
    let mut i: usize = 0;
    while i < doc.len()
        invariant
            i <= doc@.len(),
            d == nodes_view(doc@),
            texts(packages@) == packages_upto(d, i as int),
        decreases doc@.len() - i,
    {
        assert(d[i as int] == doc@[i as int]@);
        match doc[i].attribute("package") {
            Some(p) => {
                if !crate::text::same_text(p.as_str(), SYSTEM_CHROME) {
                    packages.push(p.clone());
                }
            },
            None => {},
        }
        assert(texts(packages@) =~= packages_upto(d, i + 1));
        i = i + 1;
    }
    busiest_package(&packages)
}

/// What the screen says that is not the name of something to act on.
///
/// Headings, captions, totals. A node is a notice when nothing about it or
/// above it is actionable, because the text under an actionable node is
/// already that row's label. The same caption often appears on a node and on
/// the wrapper drawn around it, so each is said once.
fn notices_of(doc: &Vec<XmlNode>) -> (r: Vec<String>)
    ensures
        texts(r@) == screen_notices(nodes_view(doc@)),
{
    let ghost d = nodes_view(doc@);
    let mut notices: Vec<String> = Vec::new();
    let mut i: usize = 0;
    while i < doc.len()
        invariant
            i <= doc@.len(),
            d == nodes_view(doc@),
            texts(notices@) == notices_upto(d, i as int),
            notices@.len() <= MAX_NOTICES,
        decreases doc@.len() - i,
    {
        assert(d[i as int] == doc@[i as int]@);
        if notices.len() < MAX_NOTICES && !within_input_method(doc, i) && !within_actionable(doc, i) {
            match label_of(&doc[i]) {
                Some(label) => {
                    let mut seen = false;
                    let mut k: usize = 0;
                    while k < notices.len()
                        invariant
                            k <= notices@.len(),
                            seen <==> exists|e: int| 0 <= e < k && #[trigger] texts(notices@)[e] == label@,
                        decreases notices@.len() - k,
                    {
                        assert(texts(notices@)[k as int] == notices@[k as int]@);
                        if crate::text::same_text(notices[k].as_str(), label.as_str()) {
                            seen = true;
                        }
                        k = k + 1;
                    }
                    if !seen {
                        notices.push(label);
                    }
                },
                None => {},
            }
        }
        assert(texts(notices@) =~= notices_upto(d, i + 1));
        i = i + 1;
    }
    notices
}

/// Read a parsed hierarchy into an observation.
///
/// The soft keyboard is a window of its own, and its keys are not rows of
/// the screen: offered as targets they drown everything else. An empty field
/// is named by its hint, or failing that for what it is, rather than thrown
/// away for having nothing to say; a node that is neither nameable nor
/// typeable is noise and goes.
///
/// Refused with [`TooManyElements`] when more rows were found than one
/// judgment can address.
pub fn snapshot_of(doc: &Vec<XmlNode>, stamps: &mut Stamps) -> (r: Result<Snapshot, TooManyElements>)
    ensures
        stamped_from(r, *old(stamps), *final(stamps)),
        ({
            let d = nodes_view(doc@);
            &&& screen_elements(d).len() > MAX_ELEMENTS <==> r is Err
            &&& r matches Err(e) ==> e.found == screen_elements(d).len() && e.limit == MAX_ELEMENTS
            &&& r matches Ok(s) ==> reads_as(d, s@)
        }),
{
    let ghost d = nodes_view(doc@);
    let mut elements: Vec<Element> = Vec::new();
    let mut i: usize = 0;
    while i < doc.len()
        invariant
            i <= doc@.len(),
            d == nodes_view(doc@),
            element_views(elements@) == elements_upto(d, i as int),
        decreases doc@.len() - i,
    {
        match element_of(doc, i) {
            Some(e) => {
                elements.push(e);
            },
            None => {},
        }
        assert(element_views(elements@) =~= elements_upto(d, i + 1));
        i = i + 1;
    }
    assert(elements@.len() == element_views(elements@).len());
    let snapshot = Snapshot::new(elements, stamps)?;
    let keyboard = shows_input_method(doc);
    let app = app_of(doc);
    let notices = notices_of(doc);
    Ok(snapshot.with_keyboard_open(keyboard).in_app(app).saying(notices))
}

/// What a hierarchy reads as, from what the parser made of it: the parser's
/// objection as [`HierarchyError::Malformed`], or the screen the tree shows.
pub fn hierarchy_of(parsed: Result<Vec<XmlNode>, String>, stamps: &mut Stamps) -> (r: Result<Snapshot, HierarchyError>)
    ensures
        stamped_from(r, *old(stamps), *final(stamps)),
        match parsed {
            Err(detail) => r matches Err(HierarchyError::Malformed { detail: d }) && d@ == detail@,
            Ok(doc) => {
                let d = nodes_view(doc@);
                &&& (screen_elements(d).len() > MAX_ELEMENTS <==> r is Err)
                &&& r matches Err(e) ==> e == HierarchyError::TooMany(
                    TooManyElements { found: screen_elements(d).len() as usize, limit: MAX_ELEMENTS },
                )
                &&& r matches Ok(s) ==> reads_as(d, s@)
            },
        },
{
    match parsed {
        Err(detail) => Err(HierarchyError::Malformed { detail }),
        Ok(doc) => match snapshot_of(&doc, stamps) {
            Ok(s) => Ok(s),
            Err(e) => Err(HierarchyError::from_too_many(e)),
        },
    }
}

impl Platform for Android {
    open spec fn offered(&self) -> Seq<Operation> {
        android_operations()
    }

    open spec fn title(&self) -> Seq<char> {
        "Android"@
    }

    fn name(&self) -> &'static str {
        "Android"
    }

    fn operations(&self) -> (ops: Vec<Operation>) {
        let ops = vec![
            Operation::Tap,
            Operation::DoubleTap,
            Operation::LongPress,
            Operation::SwipeLeft,
            Operation::SwipeRight,
            Operation::ScrollUp,
            Operation::ScrollDown,
            Operation::Back,
            Operation::CloseKeyboard,
            Operation::Home,
            Operation::AppSwitcher,
            Operation::Submit,
            Operation::Wait,
            Operation::Done,
            Operation::Blocked,
        ];
        assert(ops@ =~= android_operations());
        ops
    }
}

impl Android {
    /// Read a UIAutomator hierarchy dump into an observation, or say why it
    /// cannot be read.
    pub fn parse_hierarchy(&self, raw: &str, stamps: &mut Stamps) -> (r: Result<Snapshot, HierarchyError>)
        ensures
            stamped_from(r, *old(stamps), *final(stamps)),
            match xml_document(raw@) {
                Err(detail) => r matches Err(HierarchyError::Malformed { detail: d }) && d@ == detail,
                Ok(d) => {
                    &&& (screen_elements(d).len() > MAX_ELEMENTS <==> r is Err)
                    &&& r matches Err(e) ==> e == HierarchyError::TooMany(
                        TooManyElements { found: screen_elements(d).len() as usize, limit: MAX_ELEMENTS },
                    )
                    &&& r matches Ok(s) ==> reads_as(d, s@)
                },
            },
    {
        hierarchy_of(read_document(raw), stamps)
    }
}

} // verus!
