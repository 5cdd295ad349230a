//! Cell kinds, component diagnostics and the alignment offsets of the icon
//! matcher.
//!
//! The pixel scoring itself works on floating point and image buffers and
//! is not part of this library.
use vstd::prelude::*;
use crate::catalog::{BuiltinStratagem, CAT_BOOSTERS};
use crate::text::{eq_ignore_ascii_case, str_eq, str_eq_ignore_ascii_case};

verus! {

/// Largest radius of the alignment neighbourhood (hard cap).
pub const ALIGN_OFFSET_RADIUS: i32 = 2;

/// Absolute value.
pub open spec fn abs_int(x: int) -> int {
    if x < 0 {
        -x
    } else {
        x
    }
}

/// Offsets are tried by Manhattan distance, then `|dy|`, `|dx|`, `dy`, `dx`:
/// `(0, 0)` first and a fixed order for the rest.
pub open spec fn offset_lt(a: (i32, i32), b: (i32, i32)) -> bool {
    let da = abs_int(a.0 as int) + abs_int(a.1 as int);
    let db = abs_int(b.0 as int) + abs_int(b.1 as int);
    if da != db {
        da < db
    } else if abs_int(a.1 as int) != abs_int(b.1 as int) {
        abs_int(a.1 as int) < abs_int(b.1 as int)
    } else if abs_int(a.0 as int) != abs_int(b.0 as int) {
        abs_int(a.0 as int) < abs_int(b.0 as int)
    } else if a.1 != b.1 {
        a.1 < b.1
    } else {
        a.0 < b.0
    }
}

/// Strictly increasing in the offset order (so no offset occurs twice).
pub open spec fn offsets_sorted(s: Seq<(i32, i32)>) -> bool {
    forall|i: int, j: int| 0 <= i < j < s.len() ==> offset_lt(#[trigger] s[i], #[trigger] s[j])
}

/// `p` lies in the square of half-side `r`.
pub open spec fn in_box(p: (i32, i32), r: int) -> bool {
    -r <= p.0 <= r && -r <= p.1 <= r
}

/// The radius actually used: clamped to `0..=ALIGN_OFFSET_RADIUS`.
pub open spec fn clamp_radius(radius: i32) -> int {
    if radius < 0 {
        0
    } else if radius > ALIGN_OFFSET_RADIUS {
        ALIGN_OFFSET_RADIUS as int
    } else {
        radius as int
    }
}

proof fn lemma_offset_order(a: (i32, i32), b: (i32, i32), c: (i32, i32))
    ensures
        !offset_lt(a, a),
        a != b ==> offset_lt(a, b) || offset_lt(b, a),
        offset_lt(a, b) && offset_lt(b, c) ==> offset_lt(a, c),
        offset_lt(a, b) ==> !offset_lt(b, a),
{
}

/// Whether `a` comes before `b` in the offset order.
fn offset_less(a: (i32, i32), b: (i32, i32)) -> (r: bool)
    ensures
        r == offset_lt(a, b),
{
    let ax: i64 = if a.0 < 0 {
        -(a.0 as i64)
    } else {
        a.0 as i64
    };
    let ay: i64 = if a.1 < 0 {
        -(a.1 as i64)
    } else {
        a.1 as i64
    };
    let bx: i64 = if b.0 < 0 {
        -(b.0 as i64)
    } else {
        b.0 as i64
    };
    let by: i64 = if b.1 < 0 {
        -(b.1 as i64)
    } else {
        b.1 as i64
    };
    if ax + ay != bx + by {
        ax + ay < bx + by
    } else if ay != by {
        ay < by
    } else if ax != bx {
        ax < bx
    } else if a.1 != b.1 {
        a.1 < b.1
    } else {
        a.0 < b.0
    }
}

/// Inserts a new offset at its place in a sorted list.
fn insert_offset(v: &mut Vec<(i32, i32)>, p: (i32, i32))
    requires
        offsets_sorted(old(v)@),
        !old(v)@.contains(p),
    ensures
        offsets_sorted(final(v)@),
        final(v)@.len() == old(v)@.len() + 1,
        forall|q: (i32, i32)| #[trigger] final(v)@.contains(q) <==> (old(v)@.contains(q) || q == p),
{
    let ghost s = v@;
    let mut i: usize = 0;
    while i < v.len() && offset_less(v[i], p)
        invariant
            v@ == s,
            i <= s.len(),
            forall|k: int| 0 <= k < i ==> offset_lt(#[trigger] s[k], p),
        decreases s.len() - i,
    {
        i = i + 1;
    }
    proof {
        if i < s.len() {
            lemma_offset_order(s[i as int], p, p);
            assert(s[i as int] != p);
            assert(offset_lt(p, s[i as int]));
            assert forall|k: int| i <= k < s.len() implies offset_lt(p, #[trigger] s[k]) by {
                if k > i {
                    lemma_offset_order(p, s[i as int], s[k]);
                }
            }
        }
    }
    v.insert(i, p);
    proof {
        let t = v@;
        assert(t == s.insert(i as int, p));
        assert forall|a: int, b: int| 0 <= a < b < t.len() implies offset_lt(
            #[trigger] t[a],
            #[trigger] t[b],
        ) by {
            if a < i && b < i {
            } else if a < i && b == i {
            } else if a < i {
                assert(t[b] == s[b - 1]);
            } else if a == i {
                assert(t[b] == s[b - 1]);
            } else {
                assert(t[a] == s[a - 1]);
                assert(t[b] == s[b - 1]);
            }
        }
        assert forall|q: (i32, i32)| #[trigger] t.contains(q) <==> (s.contains(q) || q == p) by {
            if t.contains(q) {
                let k = choose|k: int| 0 <= k < t.len() && t[k] == q;
                if k < i {
                    assert(s[k] == q);
                } else if k > i {
                    assert(s[k - 1] == q);
                }
            }
            if s.contains(q) {
                let k = choose|k: int| 0 <= k < s.len() && s[k] == q;
                if k < i {
                    assert(t[k] == q);
                } else {
                    assert(t[k + 1] == q);
                }
            }
            if q == p {
                assert(t[i as int] == q);
            }
        }
    }
}

/// The alignment candidates within `radius` (clamped to
/// `0..=ALIGN_OFFSET_RADIUS`): every offset of the square, `(0, 0)` first,
/// the rest in the fixed offset order.
pub fn alignment_offsets(radius: i32) -> (r: Vec<(i32, i32)>)
    ensures
        r@.len() == (2 * clamp_radius(radius) + 1) * (2 * clamp_radius(radius) + 1),
        offsets_sorted(r@),
        forall|p: (i32, i32)| #[trigger] r@.contains(p) <==> in_box(p, clamp_radius(radius)),
{
    let c: i32 = if radius < 0 {
        0
    } else if radius > ALIGN_OFFSET_RADIUS {
        ALIGN_OFFSET_RADIUS
    } else {
        radius
    };
    let ghost w: int = 2 * c + 1;
    let mut out: Vec<(i32, i32)> = Vec::new();
    let mut dy: i32 = -c;
    assert((dy + c) * w == 0) by (nonlinear_arith)
        requires
            dy == -c,
    ;
    while dy <= c
        invariant
            0 <= c <= ALIGN_OFFSET_RADIUS,
            c == clamp_radius(radius),
            w == 2 * c + 1,
            -c <= dy <= c + 1,
            out@.len() == (dy + c) * w,
            offsets_sorted(out@),
            forall|p: (i32, i32)| #[trigger] out@.contains(p) <==> (in_box(p, c as int) && p.1 < dy),
        decreases c + 1 - dy,
    {
        let mut dx: i32 = -c;
        while dx <= c
            invariant
                0 <= c <= ALIGN_OFFSET_RADIUS,
                w == 2 * c + 1,
                -c <= dy <= c,
                -c <= dx <= c + 1,
                out@.len() == (dy + c) * w + (dx + c),
                offsets_sorted(out@),
                forall|p: (i32, i32)|
                    #[trigger] out@.contains(p) <==> (in_box(p, c as int) && (p.1 < dy || (p.1 == dy && p.0
                        < dx))),
            decreases c + 1 - dx,
        {
            let p: (i32, i32) = (dx, dy);
            assert(!out@.contains(p)) by {
                if out@.contains(p) {
                    assert(p.1 < dy || (p.1 == dy && p.0 < dx));
                }
            }
            insert_offset(&mut out, p);
            dx = dx + 1;
        }
        assert((dy + c) * w + (dx + c) == (dy + 1 + c) * w) by (nonlinear_arith)
            requires
                dx == c + 1,
                w == 2 * c + 1,
        ;
        dy = dy + 1;
    }
    out
}

/// The production offsets: the radius-1 neighbourhood in the offset order.
pub open spec fn search_offsets_spec() -> Seq<(i32, i32)> {
    seq![
        (0i32, 0i32),
        (-1i32, 0i32),
        (1i32, 0i32),
        (0i32, -1i32),
        (0i32, 1i32),
        (-1i32, -1i32),
        (1i32, -1i32),
        (-1i32, 1i32),
        (1i32, 1i32),
    ]
}

/// The alignment refinement used in production (radius 1, nine candidates).
pub fn search_offsets() -> (r: Vec<(i32, i32)>)
    ensures
        r@ == search_offsets_spec(),
{
    vec![(0, 0), (-1, 0), (1, 0), (0, -1), (0, 1), (-1, -1), (1, -1), (-1, 1), (1, 1)]
}

/// Two sorted offset lists with the same members are the same list.
proof fn lemma_sorted_offsets_unique(a: Seq<(i32, i32)>, b: Seq<(i32, i32)>)
    requires
        offsets_sorted(a),
        offsets_sorted(b),
        forall|p: (i32, i32)| #[trigger] a.contains(p) <==> b.contains(p),
    ensures
        a == b,
    decreases a.len(),
{
    if a.len() == 0 {
        if b.len() > 0 {
            assert(b.contains(b[0]));
            assert(a.contains(b[0]));
        }
        assert(a =~= b);
    } else {
        assert(a.contains(a[0]));
        assert(b.contains(a[0]));
        let k = choose|k: int| 0 <= k < b.len() && b[k] == a[0];
        assert(b.contains(b[0]));
        assert(a.contains(b[0]));
        let j = choose|j: int| 0 <= j < a.len() && a[j] == b[0];
        lemma_offset_order(a[0], b[0], a[0]);
        if k > 0 {
            assert(offset_lt(b[0], b[k]));
            if j > 0 {
                assert(offset_lt(a[0], a[j]));
            }
        }
        assert(a[0] == b[0]);
        let ta = a.drop_first();
        let tb = b.drop_first();
        assert forall|p: (i32, i32)| #[trigger] ta.contains(p) <==> tb.contains(p) by {
            if ta.contains(p) {
                let x = choose|x: int| 0 <= x < ta.len() && ta[x] == p;
                assert(a[x + 1] == p);
                assert(offset_lt(a[0], a[x + 1]));
                lemma_offset_order(a[0], a[0], a[0]);
                assert(a.contains(p));
                assert(b.contains(p));
                let y = choose|y: int| 0 <= y < b.len() && b[y] == p;
                assert(y != 0);
                assert(tb[y - 1] == p);
            }
            if tb.contains(p) {
                let x = choose|x: int| 0 <= x < tb.len() && tb[x] == p;
                assert(b[x + 1] == p);
                assert(offset_lt(b[0], b[x + 1]));
                lemma_offset_order(b[0], b[0], b[0]);
                assert(b.contains(p));
                assert(a.contains(p));
                let y = choose|y: int| 0 <= y < a.len() && a[y] == p;
                assert(y != 0);
                assert(ta[y - 1] == p);
            }
        }
        assert(offsets_sorted(ta)) by {
            assert forall|x: int, y: int| 0 <= x < y < ta.len() implies offset_lt(
                #[trigger] ta[x],
                #[trigger] ta[y],
            ) by {
                assert(ta[x] == a[x + 1] && ta[y] == a[y + 1]);
            }
        }
        assert(offsets_sorted(tb)) by {
            assert forall|x: int, y: int| 0 <= x < y < tb.len() implies offset_lt(
                #[trigger] tb[x],
                #[trigger] tb[y],
            ) by {
                assert(tb[x] == b[x + 1] && tb[y] == b[y + 1]);
            }
        }
        lemma_sorted_offsets_unique(ta, tb);
        assert(a =~= seq![a[0]] + ta);
        assert(b =~= seq![b[0]] + tb);
    }
}

/// The production offsets are exactly the radius-1 alignment candidates:
/// any list meeting the contract of `alignment_offsets(1)` is
/// `search_offsets()`.
pub proof fn lemma_search_offsets_are_radius_one(r: Seq<(i32, i32)>)
    requires
        offsets_sorted(r),
        forall|p: (i32, i32)| #[trigger] r.contains(p) <==> in_box(p, 1),
    ensures
        r == search_offsets_spec(),
{
    let s = search_offsets_spec();
    assert(offsets_sorted(s));
    assert forall|p: (i32, i32)| #[trigger] s.contains(p) <==> in_box(p, 1) by {
        if in_box(p, 1) {
            if p == (0i32, 0i32) {
                assert(s[0] == p);
            } else if p == (-1i32, 0i32) {
                assert(s[1] == p);
            } else if p == (1i32, 0i32) {
                assert(s[2] == p);
            } else if p == (0i32, -1i32) {
                assert(s[3] == p);
            } else if p == (0i32, 1i32) {
                assert(s[4] == p);
            } else if p == (-1i32, -1i32) {
                assert(s[5] == p);
            } else if p == (1i32, -1i32) {
                assert(s[6] == p);
            } else if p == (-1i32, 1i32) {
                assert(s[7] == p);
            } else {
                assert(s[8] == p);
            }
        }
    }
    lemma_sorted_offsets_unique(r, s);
}

/// Kind of a cell: decides how large the icon canvas is drawn in it.
#[derive(Debug, Clone, Copy, PartialEq, Eq, Structural)]
pub enum CellKind {
    /// A cell of the stratagem list.
    ListStratagem,
    /// A stratagem slot on the loadout home.
    HomeStratagem,
    /// The hexagonal booster slot on the loadout home.
    HomeBooster,
    /// A cell of the booster list.
    ListBooster,
}

/// The catalog's first entry with icon `key` is a booster (category compared
/// up to ASCII case); a key the catalog lacks is no booster.
pub open spec fn key_is_booster_spec(catalog: Seq<BuiltinStratagem>, key: Seq<char>) -> bool {
    exists|i: int|
        0 <= i < catalog.len() && #[trigger] catalog[i].icon@ == key && (forall|j: int|
            0 <= j < i ==> catalog[j].icon@ != key) && eq_ignore_ascii_case(
            catalog[i].category@,
            CAT_BOOSTERS@,
        )
}

impl CellKind {
    /// A booster cell (home slot or list).
    pub fn is_booster(self) -> (r: bool)
        ensures
            r == (self is HomeBooster || self is ListBooster),
    {
        match self {
            CellKind::HomeBooster | CellKind::ListBooster => true,
            _ => false,
        }
    }

    /// Whether the icon `key` belongs to the booster category.
    pub fn key_is_booster(catalog: &[BuiltinStratagem], key: &str) -> (r: bool)
        ensures
            r == key_is_booster_spec(catalog@, key@),
    {
        let mut i: usize = 0;
        while i < catalog.len()
            invariant
                i <= catalog@.len(),
                forall|j: int| 0 <= j < i ==> catalog@[j].icon@ != key@,
            decreases catalog@.len() - i,
        {
            if str_eq(catalog[i].icon.as_str(), key) {
                let r = str_eq_ignore_ascii_case(catalog[i].category.as_str(), CAT_BOOSTERS);
                proof {
                    if !r {
                        assert forall|k: int|
                            0 <= k < catalog@.len() && #[trigger] catalog@[k].icon@ == key@ && (
                            forall|j: int| 0 <= j < k ==> catalog@[j].icon@ != key@) implies k
                            == i by {
                            if k > i {
                                assert(catalog@[i as int].icon@ != key@);
                            }
                        }
                    }
                }
                return r;
            }
            i = i + 1;
        }
        false
    }
}

/// Why a connected component was dropped.
#[derive(Debug, Clone, Copy, PartialEq, Eq, Structural)]
pub enum ComponentReject {
    /// Smaller than the minimum component area.
    TooSmall,
    /// Matched the thin straight line artefact rule.
    LineArtifact,
}

impl ComponentReject {
    /// Stable label of the reason.
    pub open spec fn label_spec(self) -> Seq<char> {
        match self {
            ComponentReject::TooSmall => "area<MIN_COMPONENT_AREA"@,
            ComponentReject::LineArtifact => "line_artifact"@,
        }
    }

    /// Stable label of the reason.
    pub fn label(self) -> (r: &'static str)
        ensures
            r@ == self.label_spec(),
    {
        match self {
            ComponentReject::TooSmall => "area<MIN_COMPONENT_AREA",
            ComponentReject::LineArtifact => "line_artifact",
        }
    }
}

/// Statistics of one foreground component (diagnostics: what a cell holds).
#[derive(Debug, Clone, Copy, PartialEq, Eq)]
pub struct ComponentInfo {
    pub area: usize,
    pub bbox: (i32, i32, i32, i32),
    pub white_px: usize,
    pub color_px: usize,
    pub kept: bool,
    /// Why it was not kept.
    pub reject: Option<ComponentReject>,
}

/// Minimum area of a kept component.
pub const MIN_COMPONENT_AREA: usize = 12;
/// A line artefact is at most this thick.
pub const LINE_THIN_MAX: i32 = 3;

/// The line-artefact rule over a component's bounding box `w`×`h` and area,
/// in a cell `width`×`height`: thin (at most `LINE_THIN_MAX`), long (at
/// least half the cell's longer side), and straight (filling at least three
/// fifths of its box) or elongated (the long side at least five times the
/// short one).
pub open spec fn line_artifact_spec(area: int, w: int, h: int, width: int, height: int) -> bool {
    let lo = if w <= h { w } else { h };
    let hi = if w <= h { h } else { w };
    let cell = if width >= height { width } else { height };
    &&& lo <= LINE_THIN_MAX
    &&& 2 * hi >= cell
    &&& (5 * area >= 3 * (w * h) || hi >= 5 * (if lo >= 1 { lo } else { 1 }))
}

/// Why a component with this area and bounding box (inclusive corners) is
/// dropped from a cell `width`×`height`, if it is: too small first, then a
/// line artefact.
pub open spec fn component_verdict_spec(
    area: int,
    x0: int,
    y0: int,
    x1: int,
    y1: int,
    width: int,
    height: int,
) -> Option<ComponentReject> {
    if area < MIN_COMPONENT_AREA {
        Some(ComponentReject::TooSmall)
    } else if line_artifact_spec(area, x1 - x0 + 1, y1 - y0 + 1, width, height) {
        Some(ComponentReject::LineArtifact)
    } else {
        None
    }
}

/// Why a component is dropped from its cell, if it is (see
/// `component_verdict_spec`); the corners are those of a component found in
/// the cell.
pub fn component_verdict(
    area: usize,
    bbox: (i32, i32, i32, i32),
    width: usize,
    height: usize,
) -> (r: Option<ComponentReject>)
    requires
        0 <= bbox.0 <= bbox.2 < width,
        0 <= bbox.1 <= bbox.3 < height,
        width * height <= i32::MAX,
        area <= width * height,
    ensures
        r == component_verdict_spec(
            area as int,
            bbox.0 as int,
            bbox.1 as int,
            bbox.2 as int,
            bbox.3 as int,
            width as int,
            height as int,
        ),
{
    if area < MIN_COMPONENT_AREA {
        return Some(ComponentReject::TooSmall);
    }
    let w: i64 = bbox.2 as i64 - bbox.0 as i64 + 1;
    let h: i64 = bbox.3 as i64 - bbox.1 as i64 + 1;
    let lo: i64 = if w <= h { w } else { h };
    let hi: i64 = if w <= h { h } else { w };
    let cell: i64 = if width >= height { width as i64 } else { height as i64 };
    let a: i64 = area as i64;
    assert(w * h <= width * height) by (nonlinear_arith)
        requires 1 <= w <= width, 1 <= h <= height;
    assert(width <= width * height && height <= width * height) by (nonlinear_arith)
        requires 1 <= width, 1 <= height;
    let thin = lo <= LINE_THIN_MAX as i64;
    let long = 2 * hi >= cell;
    let straight = 5 * a >= 3 * (w * h);
    let floor: i64 = if lo >= 1 { lo } else { 1 };
    let elongated = hi >= 5 * floor;
    if thin && long && (straight || elongated) {
        Some(ComponentReject::LineArtifact)
    } else {
        None
    }
}


/// Law: the verdict on a component does not depend on the orientation of
/// the cell: transposing the bounding box and the cell gives the same
/// verdict, so a vertical rule is judged as the horizontal one is. Small
/// components are dropped as such; a component at least `LINE_THIN_MAX + 1`
/// pixels thick both ways and big enough is kept; and a rule at most
/// `LINE_THIN_MAX` wide that runs the full height of a cell at least as high
/// as wide (or, transposed, the full width of one at least as wide as high)
/// is a line artefact.
pub proof fn lemma_component_verdict_orientation(
    area: int,
    x0: int,
    y0: int,
    x1: int,
    y1: int,
    width: int,
    height: int,
)
    requires
        0 <= x0 <= x1 < width,
        0 <= y0 <= y1 < height,
    ensures
        component_verdict_spec(area, x0, y0, x1, y1, width, height) == component_verdict_spec(
            area,
            y0,
            x0,
            y1,
            x1,
            height,
            width,
        ),
        area < MIN_COMPONENT_AREA ==> component_verdict_spec(area, x0, y0, x1, y1, width, height)
            == Some(ComponentReject::TooSmall),
        area >= MIN_COMPONENT_AREA && x1 - x0 + 1 > LINE_THIN_MAX && y1 - y0 + 1 > LINE_THIN_MAX
            ==> component_verdict_spec(area, x0, y0, x1, y1, width, height) is None,
        area >= MIN_COMPONENT_AREA && x1 - x0 + 1 <= LINE_THIN_MAX && y0 == 0 && y1 == height - 1
            && height >= width && area == (x1 - x0 + 1) * height
            ==> component_verdict_spec(area, x0, y0, x1, y1, width, height) == Some(ComponentReject::LineArtifact),
        area >= MIN_COMPONENT_AREA && y1 - y0 + 1 <= LINE_THIN_MAX && x0 == 0 && x1 == width - 1
            && width >= height && area == (y1 - y0 + 1) * width
            ==> component_verdict_spec(area, x0, y0, x1, y1, width, height) == Some(ComponentReject::LineArtifact),
{
    let w = x1 - x0 + 1;
    let h = y1 - y0 + 1;
    assert(w * h == h * w) by (nonlinear_arith);
}

} // verus!
