//! One observation of a screen, and references that cannot outlive it.
//!
//! Every snapshot is stamped with a fresh [`Generation`], taken from a
//! [`Stamps`] source. An [`ElementRef`]
//! carries the stamp of the snapshot that produced it, so a reference taken
//! before an action cannot be resolved against the screen that follows it.
//!
//! Pixel geometry lives here and travels no further: a device adapter needs a
//! point to tap, and the only way to get one is to hand back a reference this
//! snapshot issued.
use crate::text::push_str;
use vstd::prelude::*;

verus! {

/// Identifies which observation a reference belongs to.
#[derive(Debug, Clone, Copy, PartialEq, Eq, Structural, Hash)]
pub struct Generation(u32);

impl Generation {
    /// The number this stamp carries.
    pub closed spec fn number(self) -> u32 {
        self.0
    }
}

/// The source of observation stamps: each observation taken from it is
/// stamped with the number after the one before, so no two observations
/// stamped from one source share a stamp until 2^32 of them have been taken.
#[derive(Debug)]
pub struct Stamps {
    next: u32,
}

impl Stamps {
    /// The stamp the next observation taken from this source receives.
    pub closed spec fn upcoming(self) -> Generation {
        Generation(self.next)
    }

    /// This source once a stamp has been taken from it: the count goes up by
    /// one, wrapping as a `u32` does.
    pub closed spec fn advanced(self) -> Stamps {
        Stamps { next: if self.next == u32::MAX { 0 } else { (self.next + 1) as u32 } }
    }

    /// This source once `n` stamps have been taken from it.
    pub open spec fn after(self, n: nat) -> Stamps
        decreases n,
    {
        if n == 0 {
            self
        } else {
            self.after((n - 1) as nat).advanced()
        }
    }

    /// A source whose first stamp is numbered zero.
    pub fn new() -> (r: Stamps)
        ensures
            r.upcoming().number() == 0,
    {
        Stamps { next: 0 }
    }

    /// Take the next stamp.
    fn take(&mut self) -> (g: Generation)
        ensures
            g == old(self).upcoming(),
            *final(self) == old(self).advanced(),
    {
        let g = Generation(self.next);
        self.next = if self.next == u32::MAX { 0 } else { self.next + 1 };
        g
    }
}

/// After `n` stamps are taken, the count has moved on by `n`, modulo 2^32.
proof fn count_after(c: Stamps, n: nat)
    ensures
        c.after(n).next == (c.next + n) % 0x1_0000_0000,
    decreases n,
{
    if n > 0 {
        count_after(c, (n - 1) as nat);
    }
}

/// Stamps taken from one source differ: the stamp taken after `n` more, for
/// any `n` from 1 up to 2^32 - 1, is never the stamp taken now.
pub proof fn stamps_from_one_source_differ(c: Stamps, n: nat)
    requires
        0 < n < 0x1_0000_0000,
    ensures
        c.after(n).upcoming() != c.upcoming(),
{
    count_after(c, n);
}

/// A reference cannot outlive its screen: a reference issued by one
/// observation names nothing in any of the next 2^32 - 1 observations stamped
/// from the same source, so resolving it there is refused as stale.
pub proof fn references_do_not_cross_observations(c: Stamps, n: nat, s: SnapshotView, t: SnapshotView, h: ElementRef)
    requires
        0 < n < 0x1_0000_0000,
        s.generation == c.upcoming(),
        t.generation == c.after(n).upcoming(),
        h.stamp() == s.generation,
    ensures
        h.stamp() != t.generation,
{
    stamps_from_one_source_differ(c, n);
}

/// How taking an observation left its source of stamps: when one was taken,
/// it carries the stamp that was upcoming and the source moved on by one;
/// when none was, the source is as it was.
pub open spec fn stamped_from<E>(r: Result<Snapshot, E>, before: Stamps, after: Stamps) -> bool {
    match r {
        Ok(s) => s@.generation == before.upcoming() && after == before.advanced(),
        Err(_) => after == before,
    }
}

/// A point on the screen, in device pixels.
#[derive(Debug, Clone, Copy, PartialEq, Eq, Structural, Hash)]
pub struct Point {
    /// Distance from the left edge.
    pub x: i32,
    /// Distance from the top edge.
    pub y: i32,
}

/// Where an element sits on screen, in device pixels.
#[derive(Debug, Clone, Copy, PartialEq, Eq, Structural, Hash)]
pub struct Bounds {
    /// Left edge.
    pub left: i32,
    /// Top edge.
    pub top: i32,
    /// Right edge.
    pub right: i32,
    /// Bottom edge.
    pub bottom: i32,
}

/// `a + b`, held to what an `i32` can represent.
pub open spec fn saturate(v: int) -> int {
    if v > i32::MAX {
        i32::MAX as int
    } else if v < i32::MIN {
        i32::MIN as int
    } else {
        v
    }
}

/// The middle of two values, rounded towards zero, as `i32::midpoint` has it.
pub open spec fn midpoint(a: int, b: int) -> int {
    if a + b >= 0 {
        (a + b) / 2
    } else {
        -((-(a + b)) / 2)
    }
}

/// `i32::midpoint`: the average, computed without overflow and rounded
/// towards zero.
pub fn mid(a: i32, b: i32) -> (m: i32)
    ensures
        m == midpoint(a as int, b as int),
        a <= b ==> a <= m <= b,
        b <= a ==> b <= m <= a,
{
    let s: i64 = a as i64 + b as i64;
    let m: i64 = if s >= 0 {
        s / 2
    } else {
        -((-s) / 2)
    };
    m as i32
}

fn saturating_sum(a: i32, b: i32) -> (r: i32)
    ensures
        r == saturate(a + b),
{
    let s: i64 = a as i64 + b as i64;
    if s > i32::MAX as i64 {
        i32::MAX
    } else if s < i32::MIN as i64 {
        i32::MIN
    } else {
        s as i32
    }
}

impl Bounds {
    /// Build bounds from an origin and a size, as iOS hierarchies report them.
    pub fn from_origin_size(x: i32, y: i32, width: i32, height: i32) -> (b: Bounds)
        ensures
            b.left == x,
            b.top == y,
            b.right == saturate(x + width),
            b.bottom == saturate(y + height),
    {
        Bounds { left: x, top: y, right: saturating_sum(x, width), bottom: saturating_sum(y, height) }
    }

    /// The point an adapter taps to hit this element: the middle of its box,
    /// computed without overflow.
    pub fn center(self) -> (p: Point)
        ensures
            p.x == midpoint(self.left as int, self.right as int),
            p.y == midpoint(self.top as int, self.bottom as int),
    {
        Point { x: mid(self.left, self.right), y: mid(self.top, self.bottom) }
    }
}

/// A handle to one element of one snapshot.
///
/// Deliberately carries no geometry: holding a reference lets you ask the
/// snapshot that issued it for a tap target, and nothing else.
#[derive(Debug, Clone, Copy, PartialEq, Eq, Structural, Hash)]
pub struct ElementRef {
    generation: Generation,
    index: u8,
}

impl ElementRef {
    /// The observation this reference was issued by.
    pub closed spec fn stamp(self) -> Generation {
        self.generation
    }

    /// Which element of that observation it names.
    pub closed spec fn position(self) -> int {
        self.index as int
    }
}

/// One thing on screen that a person could act on.
#[derive(Debug, Clone, PartialEq, Eq)]
pub struct Element {
    /// What the element calls itself.
    pub label: String,
    /// Supporting text shown alongside the title, when there is any.
    pub detail: Option<String>,
    /// Whether text can be typed into it.
    pub editable: bool,
    /// Where it sits on screen.
    pub bounds: Bounds,
}

/// What an element is, as plain values.
pub ghost struct ElementView {
    pub label: Seq<char>,
    pub detail: Option<Seq<char>>,
    pub editable: bool,
    pub bounds: Bounds,
}

/// The characters of an optional string.
pub open spec fn text_of(s: Option<String>) -> Option<Seq<char>> {
    match s {
        Some(t) => Some(t@),
        None => None,
    }
}

impl View for Element {
    type V = ElementView;

    open spec fn view(&self) -> ElementView {
        ElementView {
            label: self.label@,
            detail: text_of(self.detail),
            editable: self.editable,
            bounds: self.bounds,
        }
    }
}

/// The separator between a row's title and its detail.
pub open spec fn dash() -> Seq<char> {
    seq![' ', '—', ' ']
}

/// How an element is described to a model choosing among rows: its label,
/// then its detail after a dash when it has one.
pub open spec fn describe_view(e: ElementView) -> Seq<char> {
    match e.detail {
        Some(d) => e.label + dash() + d,
        None => e.label,
    }
}

/// An independent copy of an optional string.
pub fn copy_text(s: &Option<String>) -> (r: Option<String>)
    ensures
        text_of(r) == text_of(*s),
{
    match s {
        Some(t) => Some(t.clone()),
        None => None,
    }
}

impl Element {
    /// How this element should be described to a model choosing among rows.
    pub fn describe(&self) -> (s: String)
        ensures
            s@ == describe_view(self@),
    {
        let mut out = self.label.clone();
        match &self.detail {
            Some(detail) => {
                out.push(' ');
                out.push('—');
                out.push(' ');
                push_str(&mut out, detail.as_str());
                assert(out@ =~= self.label@ + dash() + detail@);
            },
            None => {},
        }
        out
    }

    /// An independent copy of this element.
    pub fn duplicate(&self) -> (e: Element)
        ensures
            e@ == self@,
    {
        Element {
            label: self.label.clone(),
            detail: copy_text(&self.detail),
            editable: self.editable,
            bounds: self.bounds,
        }
    }
}

/// The element is there, but nothing of it can be touched.
#[derive(Debug, Clone, Copy, PartialEq, Eq, Structural)]
pub struct Obscured;

impl Obscured {
    /// What this error says.
    pub fn message(&self) -> (s: String)
        ensures
            s@ == "the element is completely covered by what is drawn over it"@,
    {
        String::from_str("the element is completely covered by what is drawn over it")
    }
}

/// A reference that does not belong to the snapshot it was offered to.
#[derive(Debug, Clone, Copy, PartialEq, Eq, Structural)]
pub struct StaleRef {
    /// The snapshot the reference was offered to.
    pub expected: Generation,
    /// The snapshot that issued the reference.
    pub found: Generation,
}

/// The screen holds more actionable elements than one judgment can address.
#[derive(Debug, Clone, Copy, PartialEq, Eq, Structural)]
pub struct TooManyElements {
    /// How many were found.
    pub found: usize,
    /// The most that can be addressed.
    pub limit: usize,
}

/// Catalog slots not drawn from the screen: system gestures plus the verdicts.
pub const RESERVED_ACTIONS: usize = 5;

/// The most elements a single snapshot can address.
///
/// Bounded by [`crate::judgment::MAX_OPTIONS`]: an element that cannot be
/// offered as a choice cannot be acted on. Five slots are held back for the
/// actions a catalog adds beyond the screen itself, so a snapshot that parsed
/// can always be turned into a catalog.
pub const MAX_ELEMENTS: usize = crate::judgment::MAX_OPTIONS - RESERVED_ACTIONS;

/// Why an element could not be turned into a point to tap.
#[derive(Debug, Clone, Copy, PartialEq, Eq, Structural)]
pub enum TapError {
    /// The reference came from a different observation.
    Stale(StaleRef),
    /// Nothing of the element is left uncovered.
    Obscured(Obscured),
}

/// Whether `over` hides part of the band between `top` and `bottom`.
pub open spec fn covers(over: Bounds, top: int, bottom: int) -> bool {
    over.top < bottom && over.bottom > top
}

/// Whether `over` hides part of the band between `top` and `bottom`.
pub fn over_covers(over: Bounds, top: i32, bottom: i32) -> (r: bool)
    ensures
        r == covers(over, top as int, bottom as int),
{
    over.top < bottom && over.bottom > top
}

/// Whether `over` crosses the column at `x`.
pub open spec fn crosses(over: Bounds, x: int) -> bool {
    over.left <= x < over.right
}

/// The band of a column left visible once `over` is taken out of it.
pub open spec fn band_after(over: Bounds, x: int, band: (int, int)) -> (int, int) {
    let (top, bottom) = band;
    if crosses(over, x) && covers(over, top, bottom) {
        if over.top <= top {
            (if top >= over.bottom { top } else { over.bottom as int }, bottom)
        } else {
            (top, if bottom <= over.top { bottom } else { over.top as int })
        }
    } else {
        (top, bottom)
    }
}

/// The band of column `x` still visible after every element from `from`
/// onwards has been drawn over it.
pub open spec fn visible_band(elements: Seq<ElementView>, x: int, from: int, band: (int, int)) -> (
    int,
    int,
)
    decreases elements.len() - from,
{
    if from < 0 || from >= elements.len() {
        band
    } else {
        visible_band(elements, x, from + 1, band_after(elements[from].bounds, x, band))
    }
}

/// Two screens that show the same rows, words and keyboard are the same
/// screen, whenever each was read and whichever app claimed it; and they
/// are the same place even when their rows sit elsewhere, so long as the
/// same rows are left within reach, as on a form re-entered with its rows
/// at other offsets.
pub proof fn screens_are_known_by_what_they_show(a: SnapshotView, b: SnapshotView)
    ensures
        a.keyboard_open == b.keyboard_open && a.notices == b.notices && a.unavailable == b.unavailable
            && a.elements == b.elements ==> screen_words(a, true) == screen_words(b, true),
        a.keyboard_open == b.keyboard_open && a.notices == b.notices && a.unavailable == b.unavailable
            && a.elements.len() == b.elements.len() && (forall|i: int|
            0 <= i < a.elements.len() ==> element_words(#[trigger] a.elements[i]) == element_words(b.elements[i]))
            && (forall|i: int| 0 <= i < a.elements.len() ==> (#[trigger] tap_point_of(a, i) is Some) == tap_point_of(b, i) is Some)
            ==> place_words(a) == place_words(b),
{
    if a.keyboard_open == b.keyboard_open && a.notices == b.notices && a.unavailable == b.unavailable
        && a.elements.len() == b.elements.len() && (forall|i: int|
        0 <= i < a.elements.len() ==> element_words(#[trigger] a.elements[i]) == element_words(b.elements[i]))
        && (forall|i: int| 0 <= i < a.elements.len() ==> (#[trigger] tap_point_of(a, i) is Some) == tap_point_of(b, i) is Some) {
        lemma_places_agree(a.elements, b.elements);
        assert(reach_words(a) =~= reach_words(b));
    }
}

/// A screen on which a row has come within reach, or gone out of it, shows
/// different rows to act on: it is told apart from the other by its words,
/// whatever its rows say.
pub proof fn reach_tells_places_apart(a: SnapshotView, b: SnapshotView, i: int)
    requires
        a.elements.len() == b.elements.len(),
        0 <= i < a.elements.len(),
        (tap_point_of(a, i) is Some) != (tap_point_of(b, i) is Some),
    ensures
        reach_words(a) != reach_words(b),
{
    assert(reach_words(a)[i] != reach_words(b)[i]);
}

/// Rows that say the same things, wherever they sit, make the same words
/// when their bounds are left out.
proof fn lemma_places_agree(a: Seq<ElementView>, b: Seq<ElementView>)
    requires
        a.len() == b.len(),
        forall|i: int| 0 <= i < a.len() ==> element_words(#[trigger] a[i]) == element_words(b[i]),
    ensures
        elements_words(a, false) == elements_words(b, false),
    decreases a.len(),
{
    if a.len() > 0 {
        assert forall|i: int| 0 <= i < a.drop_last().len() implies element_words(#[trigger] a.drop_last()[i])
            == element_words(b.drop_last()[i]) by {
            assert(a.drop_last()[i] == a[i]);
            assert(b.drop_last()[i] == b[i]);
        }
        lemma_places_agree(a.drop_last(), b.drop_last());
        assert(element_words(a[a.len() - 1]) == element_words(b[b.len() - 1]));
    }
}

proof fn lemma_visible_band(elements: Seq<ElementView>, x: int, from: int, band: (int, int))
    requires
        0 <= from,
    ensures
        ({
            let r = visible_band(elements, x, from, band);
            &&& band.0 <= r.0
            &&& r.1 <= band.1
            &&& r.0 < r.1 ==> forall|k: int|
                from <= k < elements.len() && crosses(#[trigger] elements[k].bounds, x) ==> (
                elements[k].bounds.bottom <= r.0 || elements[k].bounds.top >= r.1)
        }),
    decreases elements.len() - from,
{
    if from < elements.len() {
        let next = band_after(elements[from].bounds, x, band);
        lemma_visible_band(elements, x, from + 1, next);
    }
}

/// A tap never lands on anything drawn over its row.
///
/// Whenever [`Snapshot::tap_point`] finds a point for a row whose box starts
/// at or below the top edge of the screen, the point lies inside the row's
/// own vertical span, and no element drawn after the row that crosses the
/// tapped column covers it.
pub proof fn tap_lands_on_its_row(s: SnapshotView, index: int)
    requires
        0 <= index < s.elements.len(),
        s.elements[index].bounds.top >= 0,
        tap_point_of(s, index) is Some,
    ensures
        ({
            let p = tap_point_of(s, index)->0;
            let row = s.elements[index].bounds;
            &&& row.top <= p.y < row.bottom
            &&& p.x == midpoint(row.left as int, row.right as int)
            &&& forall|k: int|
                index < k < s.elements.len() && crosses(#[trigger] s.elements[k].bounds, p.x as int)
                    ==> !(s.elements[k].bounds.top <= p.y < s.elements[k].bounds.bottom)
        }),
{
    let row = s.elements[index].bounds;
    let x = midpoint(row.left as int, row.right as int);
    let band = visible_band(s.elements, x, index + 1, (row.top as int, row.bottom as int));
    lemma_visible_band(s.elements, x, index + 1, (row.top as int, row.bottom as int));
    let y = midpoint(band.0, band.1);
    assert(band.0 <= y < band.1);
    assert(i32::MIN <= x <= i32::MAX);
    assert(i32::MIN <= y <= i32::MAX);
}

/// What an observation holds, as plain values.
pub ghost struct SnapshotView {
    pub generation: Generation,
    pub keyboard_open: bool,
    pub app: Option<Seq<char>>,
    pub notices: Seq<Seq<char>>,
    pub unavailable: Seq<Seq<char>>,
    pub quiet_for_ms: Option<u32>,
    pub elements: Seq<ElementView>,
}

/// The characters of each string in a list.
pub open spec fn texts(v: Seq<String>) -> Seq<Seq<char>> {
    v.map_values(|s: String| s@)
}

/// What each element in a list is.
pub open spec fn element_views(v: Seq<Element>) -> Seq<ElementView> {
    v.map_values(|e: Element| e@)
}

/// The point a tap on element `index` of `s` lands on: the middle of its
/// column, and the middle of the tallest band of that column no later element
/// covers. `None` when no such band is left.
pub open spec fn tap_point_of(s: SnapshotView, index: int) -> Option<Point> {
    let target = s.elements[index].bounds;
    let x = midpoint(target.left as int, target.right as int);
    let band = visible_band(s.elements, x, index + 1, (target.top as int, target.bottom as int));
    if band.1 <= band.0 {
        None
    } else {
        Some(Point { x: x as i32, y: midpoint(band.0, band.1) as i32 })
    }
}

/// One observation of a screen.
#[derive(Debug)]
pub struct Snapshot {
    generation: Generation,
    keyboard_open: bool,
    app: Option<String>,
    notices: Vec<String>,
    unavailable: Vec<String>,
    quiet_for_ms: Option<u32>,
    elements: Vec<Element>,
}

impl View for Snapshot {
    type V = SnapshotView;

    closed spec fn view(&self) -> SnapshotView {
        SnapshotView {
            generation: self.generation,
            keyboard_open: self.keyboard_open,
            app: text_of(self.app),
            notices: texts(self.notices@),
            unavailable: texts(self.unavailable@),
            quiet_for_ms: self.quiet_for_ms,
            elements: element_views(self.elements@),
        }
    }
}

/// Copies of every string in a list.
pub fn copy_texts(v: &Vec<String>) -> (r: Vec<String>)
    ensures
        texts(r@) == texts(v@),
{
    let mut r: Vec<String> = Vec::new();
    let mut i: usize = 0;
    while i < v.len()
        invariant
            i <= v@.len(),
            r@.len() == i,
            forall|k: int| 0 <= k < i ==> (#[trigger] r@[k])@ == v@[k]@,
        decreases v@.len() - i,
    {
        r.push(v[i].clone());
        i = i + 1;
    }
    assert(texts(r@) =~= texts(v@));
    r
}

/// The multiplier of the 64-bit FNV hash.
pub const FNV_PRIME: u64 = 1099511628211;

/// The starting value of the 64-bit FNV hash.
pub const FNV_OFFSET: u64 = 14695981039346656037;

/// One FNV-1a step, mixing one word into `h`.
pub open spec fn mix(h: u64, w: u64) -> u64 {
    (h ^ w).wrapping_mul(FNV_PRIME)
}

/// The FNV-1a hash of a run of words.
pub open spec fn hash_words(words: Seq<u64>) -> u64
    decreases words.len(),
{
    if words.len() == 0 {
        FNV_OFFSET
    } else {
        mix(hash_words(words.drop_last()), words.last())
    }
}

/// A string as words: its length, then each character.
pub open spec fn text_words(t: Seq<char>) -> Seq<u64> {
    seq![t.len() as u64] + t.map_values(|c: char| c as u32 as u64)
}

/// A list of strings as words: how many, then each of them.
pub open spec fn list_words(ts: Seq<Seq<char>>) -> Seq<u64>
    decreases ts.len(),
{
    if ts.len() == 0 {
        seq![0u64]
    } else {
        let rest = list_words(ts.drop_last());
        seq![ts.len() as u64] + rest.drop_first() + text_words(ts.last())
    }
}

/// What an element says about itself, as words: everything but where it is.
pub open spec fn element_words(e: ElementView) -> Seq<u64> {
    text_words(e.label) + match e.detail {
        Some(d) => seq![1u64] + text_words(d),
        None => seq![0u64],
    } + seq![if e.editable { 1u64 } else { 0u64 }]
}

/// Where an element is, as words.
pub open spec fn bounds_words(b: Bounds) -> Seq<u64> {
    seq![
        b.left as u32 as u64,
        b.top as u32 as u64,
        b.right as u32 as u64,
        b.bottom as u32 as u64,
    ]
}

/// The words of every element, with or without their geometry.
pub open spec fn elements_words(es: Seq<ElementView>, with_bounds: bool) -> Seq<u64>
    decreases es.len(),
{
    if es.len() == 0 {
        Seq::empty()
    } else {
        elements_words(es.drop_last(), with_bounds) + element_words(es.last()) + if with_bounds {
            bounds_words(es.last().bounds)
        } else {
            Seq::empty()
        }
    }
}

/// Everything that identifies a screen, as words: whether a keyboard is up,
/// what it says, what it refuses, and its rows, with their geometry when
/// `with_bounds`.
pub open spec fn screen_words(s: SnapshotView, with_bounds: bool) -> Seq<u64> {
    seq![if s.keyboard_open { 1u64 } else { 0u64 }] + list_words(s.notices) + list_words(
        s.unavailable,
    ) + elements_words(s.elements, with_bounds)
}

/// Which rows can still be touched, as words: one for each row, 1 where
/// part of it is left uncovered and 0 where it is hidden entirely.
pub open spec fn reach_words(s: SnapshotView) -> Seq<u64> {
    Seq::new(s.elements.len(), |i: int| if tap_point_of(s, i) is Some { 1u64 } else { 0u64 })
}

/// What makes a screen the place it is, as words: everything that identifies
/// it but where its rows sit, and which of its rows can be reached.
pub open spec fn place_words(s: SnapshotView) -> Seq<u64> {
    screen_words(s, false) + reach_words(s)
}

/// Mix every word of `words` into `h`.
fn mix_all(h: u64, words: &Vec<u64>) -> (r: u64)
    requires
        h == FNV_OFFSET,
    ensures
        r == hash_words(words@),
{
    let mut h = h;
    let mut i: usize = 0;
    while i < words.len()
        invariant
            i <= words@.len(),
            h == hash_words(words@.take(i as int)),
        decreases words@.len() - i,
    {
        assert(words@.take((i + 1) as int).drop_last() =~= words@.take(i as int));
        h = (h ^ words[i]).wrapping_mul(FNV_PRIME);
        i = i + 1;
    }
    assert(words@.take(i as int) =~= words@);
    h
}

fn push_text_words(out: &mut Vec<u64>, t: &String)
    ensures
        final(out)@ == old(out)@ + text_words(t@),
{
    let chars = crate::text::chars_of(t.as_str());
    out.push(chars.len() as u64);
    let mut i: usize = 0;
    while i < chars.len()
        invariant
            i <= chars@.len(),
            chars@ == t@,
            out@ == old(out)@ + seq![t@.len() as u64] + chars@.take(i as int).map_values(
                |c: char| c as u32 as u64,
            ),
        decreases chars@.len() - i,
    {
        out.push(chars[i] as u32 as u64);
        i = i + 1;
        assert(chars@.take(i as int).map_values(|c: char| c as u32 as u64) =~= chars@.take(
            (i - 1) as int,
        ).map_values(|c: char| c as u32 as u64).push(chars@[i - 1] as u32 as u64));
    }
    assert(chars@.take(i as int) =~= chars@);
    assert(out@ =~= old(out)@ + text_words(t@));
}

fn push_list_words(out: &mut Vec<u64>, ts: &Vec<String>)
    ensures
        final(out)@ == old(out)@ + list_words(texts(ts@)),
{
    out.push(ts.len() as u64);
    let mut i: usize = 0;
    while i < ts.len()
        invariant
            i <= ts@.len(),
            out@ == old(out)@ + seq![ts@.len() as u64] + list_words(
                texts(ts@.take(i as int)),
            ).drop_first(),
        decreases ts@.len() - i,
    {
        let ghost before = out@;
        push_text_words(out, &ts[i]);
        proof {
            let now = texts(ts@.take((i + 1) as int));
            assert(now.drop_last() =~= texts(ts@.take(i as int)));
            assert(now.last() == ts@[i as int]@);
            assert(now.len() > 0);
            let rest = list_words(now.drop_last());
            assert(list_words(now) == seq![now.len() as u64] + rest.drop_first() + text_words(
                now.last(),
            ));
            assert((seq![now.len() as u64] + rest.drop_first() + text_words(now.last())).drop_first()
                =~= rest.drop_first() + text_words(now.last()));
            assert(out@ =~= old(out)@ + seq![ts@.len() as u64] + list_words(now).drop_first());
        }
        i = i + 1;
    }
    proof {
        assert(ts@.take(i as int) =~= ts@);
        let all = texts(ts@);
        if all.len() == 0 {
            assert(list_words(all) == seq![0u64]);
        } else {
            assert(list_words(all)[0] == all.len() as u64);
        }
        assert(list_words(all) =~= seq![ts@.len() as u64] + list_words(all).drop_first());
    }
}

fn push_element_words(out: &mut Vec<u64>, e: &Element, with_bounds: bool)
    ensures
        final(out)@ == old(out)@ + element_words(e@) + if with_bounds {
            bounds_words(e.bounds)
        } else {
            Seq::empty()
        },
{
    push_text_words(out, &e.label);
    match &e.detail {
        Some(d) => {
            out.push(1u64);
            push_text_words(out, d);
        },
        None => {
            out.push(0u64);
        },
    }
    out.push(if e.editable { 1u64 } else { 0u64 });
    if with_bounds {
        out.push(e.bounds.left as u32 as u64);
        out.push(e.bounds.top as u32 as u64);
        out.push(e.bounds.right as u32 as u64);
        out.push(e.bounds.bottom as u32 as u64);
    }
    assert(out@ =~= old(out)@ + element_words(e@) + if with_bounds {
        bounds_words(e.bounds)
    } else {
        Seq::empty()
    });
}

impl Snapshot {
    /// The observation holds no more elements than can be addressed.
    #[verifier::type_invariant]
    closed spec fn addressable(&self) -> bool {
        self.elements@.len() <= MAX_ELEMENTS
    }

    /// Take an observation of the given elements, in the order they appear.
    ///
    /// Refused with [`TooManyElements`] when the screen holds more than
    /// [`MAX_ELEMENTS`] actionable elements.
    pub fn new(elements: Vec<Element>, stamps: &mut Stamps) -> (r: Result<Snapshot, TooManyElements>)
        ensures
            elements@.len() > MAX_ELEMENTS <==> r is Err,
            stamped_from(r, *old(stamps), *final(stamps)),
            r matches Err(e) ==> e.found == elements@.len() && e.limit == MAX_ELEMENTS,
            r matches Ok(s) ==> ({
                &&& s@.elements == element_views(elements@)
                &&& !s@.keyboard_open
                &&& s@.app is None
                &&& s@.notices.len() == 0
                &&& s@.unavailable.len() == 0
                &&& s@.quiet_for_ms is None
            }),
    {
        if elements.len() > MAX_ELEMENTS {
            return Err(TooManyElements { found: elements.len(), limit: MAX_ELEMENTS });
        }
        let s = Snapshot {
            generation: stamps.take(),
            keyboard_open: false,
            app: None,
            notices: Vec::new(),
            unavailable: Vec::new(),
            quiet_for_ms: None,
            elements,
        };
        assert(texts(s.notices@) =~= Seq::<Seq<char>>::empty());
        assert(texts(s.unavailable@) =~= Seq::<Seq<char>>::empty());
        Ok(s)
    }

    /// Note whether a soft keyboard is covering part of this screen.
    pub fn with_keyboard_open(self, open: bool) -> (s: Snapshot)
        ensures
            s@ == (SnapshotView { keyboard_open: open, ..self@ }),
    {
        proof {
            use_type_invariant(&self);
        }
        Snapshot { keyboard_open: open, ..self }
    }

    /// Whether a soft keyboard is covering part of this screen.
    pub fn keyboard_open(&self) -> (r: bool)
        ensures
            r == self@.keyboard_open,
    {
        self.keyboard_open
    }

    /// Note which application this screen belongs to.
    pub fn in_app(self, app: Option<String>) -> (s: Snapshot)
        ensures
            s@ == (SnapshotView { app: text_of(app), ..self@ }),
    {
        proof {
            use_type_invariant(&self);
        }
        Snapshot { app, ..self }
    }

    /// Note what the screen says, beyond what it offers to act on.
    pub fn saying(self, notices: Vec<String>) -> (s: Snapshot)
        ensures
            s@ == (SnapshotView { notices: texts(notices@), ..self@ }),
    {
        proof {
            use_type_invariant(&self);
        }
        Snapshot { notices, ..self }
    }

    /// What the screen says, in the order it says it.
    pub fn notices(&self) -> (r: Vec<String>)
        ensures
            texts(r@) == self@.notices,
    {
        copy_texts(&self.notices)
    }

    /// How many rows this screen offers.
    pub fn rows(&self) -> (n: usize)
        ensures
            n == self@.elements.len(),
    {
        self.elements.len()
    }

    /// Note how long the reader had seen the screen unchanged.
    pub fn quiet_for(self, ms: Option<u32>) -> (s: Snapshot)
        ensures
            s@ == (SnapshotView { quiet_for_ms: ms, ..self@ }),
    {
        proof {
            use_type_invariant(&self);
        }
        Snapshot { quiet_for_ms: ms, ..self }
    }

    /// How long the screen had been quiet when it was read, in milliseconds,
    /// when the reader could say.
    pub fn quiet_for_ms(&self) -> (r: Option<u32>)
        ensures
            r == self@.quiet_for_ms,
    {
        self.quiet_for_ms
    }

    /// Note the controls that are present but cannot be used.
    pub fn offering_but_refusing(self, controls: Vec<String>) -> (s: Snapshot)
        ensures
            s@ == (SnapshotView { unavailable: texts(controls@), ..self@ }),
    {
        proof {
            use_type_invariant(&self);
        }
        Snapshot { unavailable: controls, ..self }
    }

    /// Controls the screen shows and will not let anything act on.
    pub fn unavailable(&self) -> (r: Vec<String>)
        ensures
            texts(r@) == self@.unavailable,
    {
        copy_texts(&self.unavailable)
    }

    /// Which application this screen belongs to, when the reader could say.
    pub fn app(&self) -> (r: Option<String>)
        ensures
            text_of(r) == self@.app,
    {
        copy_text(&self.app)
    }

    /// Which screen this is, as against what state it is in: the rows it
    /// offers, the words it says, the controls it refuses, whether a
    /// keyboard is up and which rows are left within reach, and deliberately
    /// not where any of it sits. A page scrolled to other rows is another
    /// place; a form re-entered with its rows at other offsets is the same.
    pub fn place(&self) -> (h: u64)
        ensures
            h == hash_words(place_words(self@)),
    {
        proof {
            use_type_invariant(self);
        }
        let mut words = self.words(false);
        let ghost head = words@;
        let mut i: usize = 0;
        while i < self.elements.len()
            invariant
                i <= self.elements@.len() <= MAX_ELEMENTS,
                words@ == head + reach_words(self@).take(i as int),
                reach_words(self@).len() == self.elements@.len(),
            decreases self.elements@.len() - i,
        {
            let handle = ElementRef { generation: self.generation, index: i as u8 };
            let reached = match self.tap_point(handle) {
                Ok(_) => 1u64,
                Err(_) => 0u64,
            };
            words.push(reached);
            assert(reach_words(self@).take(i + 1) =~= reach_words(self@).take(i as int).push(reached));
            i = i + 1;
        }
        assert(reach_words(self@).take(i as int) =~= reach_words(self@));
        mix_all(FNV_OFFSET, &words)
    }

    /// What is on this screen, as one number: everything [`Self::place`]
    /// hashes, and where each row sits.
    pub fn fingerprint(&self) -> (h: u64)
        ensures
            h == hash_words(screen_words(self@, true)),
    {
        let words = self.words(true);
        mix_all(FNV_OFFSET, &words)
    }

    fn words(&self, with_bounds: bool) -> (words: Vec<u64>)
        ensures
            words@ == screen_words(self@, with_bounds),
    {
        let mut words: Vec<u64> = Vec::new();
        words.push(if self.keyboard_open { 1u64 } else { 0u64 });
        push_list_words(&mut words, &self.notices);
        push_list_words(&mut words, &self.unavailable);
        let ghost head = words@;
        let mut i: usize = 0;
        while i < self.elements.len()
            invariant
                i <= self.elements@.len(),
                words@ == head + elements_words(element_views(self.elements@.take(i as int)), with_bounds),
            decreases self.elements@.len() - i,
        {
            push_element_words(&mut words, &self.elements[i], with_bounds);
            proof {
                let now = element_views(self.elements@.take((i + 1) as int));
                assert(now.drop_last() =~= element_views(self.elements@.take(i as int)));
                assert(now.last() == self.elements@[i as int]@);
            }
            i = i + 1;
            assert(words@ =~= head + elements_words(element_views(self.elements@.take(i as int)), with_bounds));
        }
        assert(self.elements@.take(i as int) =~= self.elements@);
        assert(words@ =~= screen_words(self@, with_bounds));
        words
    }

    /// Whether this screen offers anything to act on.
    pub fn worth_acting_on(&self) -> (r: bool)
        ensures
            r == (self@.elements.len() > 0),
    {
        self.elements.len() > 0
    }

    /// Every element, paired with the reference that addresses it, in screen
    /// order.
    pub fn refs(&self) -> (r: Vec<(ElementRef, Element)>)
        ensures
            r@.len() == self@.elements.len(),
            forall|i: int|
                0 <= i < r@.len() ==> {
                    &&& (#[trigger] r@[i]).0.stamp() == self@.generation
                    &&& r@[i].0.position() == i
                    &&& r@[i].1@ == self@.elements[i]
                },
    {
        proof {
            use_type_invariant(self);
        }
        let mut r: Vec<(ElementRef, Element)> = Vec::new();
        let mut i: usize = 0;
        while i < self.elements.len()
            invariant
                i <= self.elements@.len() <= MAX_ELEMENTS,
                r@.len() == i,
                forall|k: int|
                    0 <= k < i ==> {
                        &&& (#[trigger] r@[k]).0.generation == self.generation
                        &&& r@[k].0.index == k
                        &&& r@[k].1@ == self.elements@[k]@
                    },
            decreases self.elements@.len() - i,
        {
            let handle = ElementRef { generation: self.generation, index: i as u8 };
            r.push((handle, self.elements[i].duplicate()));
            i = i + 1;
        }
        r
    }

    /// Exchange a reference for the element it names.
    ///
    /// Refused with [`StaleRef`] when the reference was issued by a different
    /// observation, which means the screen has since been replaced.
    pub fn resolve(&self, handle: ElementRef) -> (r: Result<&Element, StaleRef>)
        ensures
            handle.stamp() == self@.generation && handle.position() < self@.elements.len()
                <==> r is Ok,
            r matches Ok(e) ==> e@ == self@.elements[handle.position()],
            r matches Err(e) ==> e.expected == self@.generation && e.found == handle.stamp(),
    {
        if handle.generation == self.generation && (handle.index as usize) < self.elements.len() {
            return Ok(&self.elements[handle.index as usize]);
        }
        Err(StaleRef { expected: self.generation, found: handle.generation })
    }

    /// Where to tap to hit this element.
    ///
    /// Not simply the middle of its box: a hierarchy reports an element at
    /// its full size even when part of it lies behind something drawn later.
    /// The box is narrowed, in its middle column, past everything drawn after
    /// it, and the middle of what is left is used instead.
    ///
    /// Refused with [`TapError::Stale`] when the reference came from another
    /// observation, and [`TapError::Obscured`] when nothing of the element is
    /// left to touch.
    pub fn tap_point(&self, handle: ElementRef) -> (r: Result<Point, TapError>)
        ensures
            !(handle.stamp() == self@.generation && handle.position() < self@.elements.len())
                ==> r == Err::<Point, TapError>(
                TapError::Stale(StaleRef { expected: self@.generation, found: handle.stamp() }),
            ),
            handle.stamp() == self@.generation && handle.position() < self@.elements.len() ==> {
                match tap_point_of(self@, handle.position()) {
                    Some(p) => r == Ok::<Point, TapError>(p),
                    None => r == Err::<Point, TapError>(TapError::Obscured(Obscured)),
                }
            },
    {
        let target = match self.resolve(handle) {
            Ok(e) => e.bounds,
            Err(stale) => {
                return Err(TapError::Stale(stale));
            },
        };
        let x = mid(target.left, target.right);
        let mut top = target.top;
        let mut bottom = target.bottom;
        let start = handle.index as usize + 1;
        let mut k = start;
        let ghost elems = self@.elements;
        let ghost init = (target.top as int, target.bottom as int);
        assert(elems == element_views(self.elements@));
        while k < self.elements.len()
            invariant
                start <= k <= self.elements@.len(),
                elems == element_views(self.elements@),
                visible_band(elems, x as int, start as int, init) == visible_band(
                    elems,
                    x as int,
                    k as int,
                    (top as int, bottom as int),
                ),
            decreases self.elements@.len() - k,
        {
            let over = self.elements[k].bounds;
            proof {
                assert(elems[k as int].bounds == over);
            }
            if over.left <= x && x < over.right && over_covers(over, top, bottom) {
                if over.top <= top {
                    if top < over.bottom {
                        top = over.bottom;
                    }
                } else {
                    if bottom > over.top {
                        bottom = over.top;
                    }
                }
            }
            k = k + 1;
        }
        if bottom <= top {
            return Err(TapError::Obscured(Obscured));
        }
        Ok(Point { x, y: mid(top, bottom) })
    }

    /// Whether the screen offered nothing to act on.
    pub fn is_empty(&self) -> (r: bool)
        ensures
            r == (self@.elements.len() == 0),
    {
        self.elements.len() == 0
    }

    /// How many actionable elements the screen offered.
    pub fn len(&self) -> (n: usize)
        ensures
            n == self@.elements.len(),
            n <= MAX_ELEMENTS,
    {
        proof {
            use_type_invariant(self);
        }
        self.elements.len()
    }
}

} // verus!
