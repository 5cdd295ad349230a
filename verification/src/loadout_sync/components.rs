//! Connected foreground components of a cell's masks: labelling by flood
//! fill (4-neighbourhood) and the proof that labels are exactly the
//! components.
use vstd::prelude::*;
use crate::loadout_sync::matcher::{
    component_verdict, component_verdict_spec, ComponentInfo, ComponentReject,
};

verus! {

/// Pixels `a` and `b` of a `w`-wide grid of `n` pixels touch (left, right,
/// above or below).
pub open spec fn adj(w: int, n: int, a: int, b: int) -> bool {
    &&& 0 <= a < n
    &&& 0 <= b < n
    &&& ((b == a + 1 && a % w + 1 < w) || (a == b + 1 && b % w + 1 < w) || b == a + w || a == b + w)
}

/// `p` is a path of foreground pixels, each touching the next.
pub open spec fn is_path(fg: Seq<bool>, w: int, p: Seq<int>) -> bool {
    &&& p.len() >= 1
    &&& forall|k: int| 0 <= k < p.len() ==> 0 <= #[trigger] p[k] < fg.len() && fg[p[k]]
    &&& forall|k: int| 0 <= k < p.len() - 1 ==> adj(w, fg.len() as int, #[trigger] p[k], p[k + 1])
}

/// `a` and `b` lie in the same foreground component.
pub open spec fn connected(fg: Seq<bool>, w: int, a: int, b: int) -> bool {
    exists|p: Seq<int>| #[trigger] is_path(fg, w, p) && p[0] == a && p.last() == b
}

pub proof fn lemma_connected_refl(fg: Seq<bool>, w: int, a: int)
    requires
        0 <= a < fg.len(),
        fg[a],
    ensures
        connected(fg, w, a, a),
{
    let p = seq![a];
    assert(is_path(fg, w, p));
}

pub proof fn lemma_connected_step(fg: Seq<bool>, w: int, a: int, b: int, c: int)
    requires
        connected(fg, w, a, b),
        adj(w, fg.len() as int, b, c),
        fg[c],
    ensures
        connected(fg, w, a, c),
{
    let p = choose|p: Seq<int>| #[trigger] is_path(fg, w, p) && p[0] == a && p.last() == b;
    let q = p.push(c);
    assert forall|k: int| 0 <= k < q.len() implies 0 <= #[trigger] q[k] < fg.len() && fg[q[k]] by {
        if k < p.len() {
            assert(q[k] == p[k]);
        }
    }
    assert forall|k: int| 0 <= k < q.len() - 1 implies adj(w, fg.len() as int, #[trigger] q[k], q[k + 1]) by {
        if k < p.len() - 1 {
            assert(q[k] == p[k]);
            assert(q[k + 1] == p[k + 1]);
        } else {
            assert(q[k] == b);
        }
    }
    assert(is_path(fg, w, q));
}

pub proof fn lemma_connected_sym(fg: Seq<bool>, w: int, a: int, b: int)
    requires
        connected(fg, w, a, b),
    ensures
        connected(fg, w, b, a),
{
    let p = choose|p: Seq<int>| #[trigger] is_path(fg, w, p) && p[0] == a && p.last() == b;
    let q = p.reverse();
    assert forall|k: int| 0 <= k < q.len() implies 0 <= #[trigger] q[k] < fg.len() && fg[q[k]] by {
        assert(q[k] == p[p.len() - 1 - k]);
    }
    assert forall|k: int| 0 <= k < q.len() - 1 implies adj(w, fg.len() as int, #[trigger] q[k], q[k + 1]) by {
        assert(q[k] == p[p.len() - 1 - k]);
        assert(q[k + 1] == p[p.len() - 2 - k]);
        assert(adj(w, fg.len() as int, p[p.len() - 2 - k], p[p.len() - 1 - k]));
    }
    assert(is_path(fg, w, q));
    assert(q[0] == b);
    assert(q.last() == a);
}

pub proof fn lemma_connected_trans(fg: Seq<bool>, w: int, a: int, b: int, c: int)
    requires
        connected(fg, w, a, b),
        connected(fg, w, b, c),
    ensures
        connected(fg, w, a, c),
{
    let p = choose|p: Seq<int>| #[trigger] is_path(fg, w, p) && p[0] == a && p.last() == b;
    let q = choose|q: Seq<int>| #[trigger] is_path(fg, w, q) && q[0] == b && q.last() == c;
    let r = p + q.drop_first();
    assert forall|k: int| 0 <= k < r.len() implies 0 <= #[trigger] r[k] < fg.len() && fg[r[k]] by {
        if k < p.len() {
            assert(r[k] == p[k]);
        } else {
            assert(r[k] == q[k - p.len() + 1]);
        }
    }
    assert forall|k: int| 0 <= k < r.len() - 1 implies adj(w, fg.len() as int, #[trigger] r[k], r[k + 1]) by {
        if k < p.len() - 1 {
            assert(r[k] == p[k]);
            assert(r[k + 1] == p[k + 1]);
        } else if k == p.len() - 1 {
            assert(r[k] == b);
            assert(r[k + 1] == q[1]);
            assert(q[0] == b);
        } else {
            assert(r[k] == q[k - p.len() + 1]);
            assert(r[k + 1] == q[k - p.len() + 2]);
        }
    }
    assert(is_path(fg, w, r));
    if q.len() == 1 {
        assert(r =~= p);
    } else {
        assert(r.last() == q.last());
    }
}

/// A set of pixels closed under touching foreground holds every pixel a
/// path leads to from one of its pixels.
pub proof fn lemma_closed_holds_path(fg: Seq<bool>, w: int, s: spec_fn(int) -> bool, p: Seq<int>)
    requires
        is_path(fg, w, p),
        s(p[0]),
        forall|x: int, y: int| #[trigger] s(x) && #[trigger] adj(w, fg.len() as int, x, y) && fg[y] ==> s(y),
    ensures
        s(p.last()),
    decreases p.len(),
{
    if p.len() > 1 {
        let q = p.drop_last();
        assert forall|k: int| 0 <= k < q.len() implies 0 <= #[trigger] q[k] < fg.len() && fg[q[k]] by {
            assert(q[k] == p[k]);
        }
        assert forall|k: int| 0 <= k < q.len() - 1 implies adj(w, fg.len() as int, #[trigger] q[k], q[k + 1]) by {
            assert(q[k] == p[k]);
            assert(q[k + 1] == p[k + 1]);
        }
        lemma_closed_holds_path(fg, w, s, q);
        assert(adj(w, fg.len() as int, p[p.len() - 2], p[p.len() - 1]));
        assert(q.last() == p[p.len() - 2]);
    }
}

/// The label of a background pixel.
pub const NO_LABEL: usize = usize::MAX;

/// How many of the first `m` pixels have no label yet.
pub open spec fn unlabelled(labels: Seq<usize>, m: int) -> int
    decreases m,
{
    if m <= 0 {
        0
    } else {
        unlabelled(labels, m - 1) + if labels[m - 1] == NO_LABEL { 1int } else { 0int }
    }
}

proof fn lemma_unlabelled_update(labels: Seq<usize>, q: int, l: usize, m: int)
    requires
        0 <= q < labels.len(),
        labels[q] == NO_LABEL,
        l != NO_LABEL,
        0 <= m <= labels.len(),
    ensures
        unlabelled(labels.update(q, l), m) == unlabelled(labels, m) - if q < m { 1int } else { 0int },
    decreases m,
{
    if m > 0 {
        lemma_unlabelled_update(labels, q, l, m - 1);
    }
}

proof fn lemma_unlabelled_bounds(labels: Seq<usize>, m: int)
    requires
        0 <= m,
    ensures
        0 <= unlabelled(labels, m) <= m,
    decreases m,
{
    if m > 0 {
        lemma_unlabelled_bounds(labels, m - 1);
    }
}

/// The labelling facts of a flood fill in progress on the new label `l`,
/// (the earlier labels are finished: closed). Pixel `ex` (if any) is being
/// expanded: its neighbours may still be unvisited.
pub open spec fn fill_inv(
    fg: Seq<bool>,
    w: int,
    labels: Seq<usize>,
    starts: Seq<usize>,
    stack: Seq<usize>,
    l: int,
    ex: int,
) -> bool {
    let n = fg.len() as int;
    &&& n < NO_LABEL
    &&& labels.len() == n
    &&& starts.len() == l + 1
    &&& forall|p: int| 0 <= p < n && #[trigger] labels[p] != NO_LABEL ==> fg[p] && labels[p] <= l
    &&& forall|k: int| 0 <= k <= l ==> #[trigger] starts[k] < n && labels[starts[k] as int] == k
    &&& forall|p: int| 0 <= p < n && #[trigger] labels[p] != NO_LABEL ==> connected(
        fg,
        w,
        starts[labels[p] as int] as int,
        p,
    )
    &&& forall|p: int, q: int|
        #![trigger labels[p], adj(w, n, p, q)]
        0 <= p < n && labels[p] != NO_LABEL && labels[p] < l && adj(w, n, p, q) && fg[q]
            ==> labels[q] == labels[p]
    &&& forall|p: int, q: int|
        #![trigger labels[p], adj(w, n, p, q)]
        0 <= p < n && p != ex && labels[p] == l && !stack.contains(p as usize) && adj(w, n, p, q)
            && fg[q] ==> labels[q] == l
    &&& forall|k: int| 0 <= k < stack.len() ==> #[trigger] stack[k] < n && labels[stack[k] as int] == l
    &&& stack.no_duplicates()
}

/// Labels pixel `b` with `l` and queues it, if it is unlabelled foreground.
fn visit(fg: &Vec<bool>, labels: &mut Vec<usize>, stack: &mut Vec<usize>, b: usize, l: usize)
    requires
        b < fg@.len(),
        old(labels)@.len() == fg@.len(),
        l != NO_LABEL,
    ensures
        fg@[b as int] && old(labels)@[b as int] == NO_LABEL ==> final(labels)@ == old(labels)@.update(
            b as int,
            l,
        ) && final(stack)@ == old(stack)@.push(b),
        !(fg@[b as int] && old(labels)@[b as int] == NO_LABEL) ==> final(labels)@ == old(labels)@
            && final(stack)@ == old(stack)@,
{
    if fg[b] && labels[b] == NO_LABEL {
        labels.set(b, l);
        stack.push(b);
    }
}

proof fn lemma_visit_keeps(
    fg: Seq<bool>,
    w: int,
    labels: Seq<usize>,
    starts: Seq<usize>,
    stack: Seq<usize>,
    l: int,
    a: int,
    b: int,
)
    requires
        fill_inv(fg, w, labels, starts, stack, l, a),
        0 <= l < NO_LABEL,
        0 <= a < fg.len(),
        labels[a] == l,
        !stack.contains(a as usize),
        adj(w, fg.len() as int, a, b),
    ensures
        fg[b] && labels[b] == NO_LABEL ==> fill_inv(
            fg,
            w,
            labels.update(b, l as usize),
            starts,
            stack.push(b as usize),
            l,
            a,
        ),
        fg[b] ==> (labels[b] == NO_LABEL || labels[b] == l),
{
    let n = fg.len() as int;
    if fg[b] && labels[b] != NO_LABEL && labels[b] < l {
        assert(adj(w, n, b, a));
        assert(labels[a] == labels[b]);
    }
    if fg[b] && labels[b] == NO_LABEL {
        let nl = labels.update(b, l as usize);
        let ns = stack.push(b as usize);
        assert(connected(fg, w, starts[l] as int, a));
        lemma_connected_step(fg, w, starts[l] as int, a, b);
        assert forall|p: int| 0 <= p < n && #[trigger] nl[p] != NO_LABEL implies connected(
            fg,
            w,
            starts[nl[p] as int] as int,
            p,
        ) by {
            if p != b {
                assert(nl[p] == labels[p]);
            }
        }
        assert forall|k: int| 0 <= k <= l implies #[trigger] starts[k] < n && nl[starts[k] as int]
            == k by {
            assert(labels[starts[k] as int] == k);
        }
        assert forall|p: int, q: int|
            #![trigger nl[p], adj(w, n, p, q)]
            0 <= p < n && nl[p] != NO_LABEL && nl[p] < l && adj(w, n, p, q) && fg[q] implies nl[q]
            == nl[p] by {
            assert(p != b);
            assert(labels[q] == labels[p]);
            if q == b {
                assert(false);
            }
        }
        assert forall|p: int, q: int|
            #![trigger nl[p], adj(w, n, p, q)]
            0 <= p < n && p != a && nl[p] == l && !ns.contains(p as usize) && adj(w, n, p, q)
                && fg[q] implies nl[q] == l by {
            if p != b {
                assert(!stack.contains(p as usize)) by {
                    if stack.contains(p as usize) {
                        let k = choose|k: int| 0 <= k < stack.len() && stack[k] == p as usize;
                        assert(ns[k] == p as usize);
                    }
                }
                assert(labels[q] == l);
            } else {
                assert(ns[stack.len() as int] == b as usize);
            }
        }
        assert forall|k: int| 0 <= k < ns.len() implies #[trigger] ns[k] < n && nl[ns[k] as int] == l by {
            if k < stack.len() {
                assert(ns[k] == stack[k]);
                assert(stack[k] < n && labels[stack[k] as int] == l);
                assert(stack[k] as int != b);
            } else {
                assert(ns[k] == b as usize);
            }
        }
        assert(!stack.contains(b as usize)) by {
            if stack.contains(b as usize) {
                let k = choose|k: int| 0 <= k < stack.len() && stack[k] == b as usize;
                assert(0 <= k < stack.len());
                assert(stack[k] == b as usize);
                assert(stack[k] < n && labels[stack[k] as int] == l);
                assert(stack[k] as int == b);
                assert(labels[b] == l);
                assert(labels[b] == NO_LABEL);
                assert(false);
            }
        }
        assert forall|i: int, j: int| 0 <= i < ns.len() && 0 <= j < ns.len() && i != j implies ns[i]
            != ns[j] by {
            if i == stack.len() as int {
                assert(stack[j] == ns[j]);
            } else if j == stack.len() as int {
                assert(stack[i] == ns[i]);
            }
        }
    }
}

/// Visits neighbour `b` of the pixel `a` being expanded.
fn visit_neighbour(
    fg: &Vec<bool>,
    width: usize,
    labels: &mut Vec<usize>,
    starts: &Vec<usize>,
    stack: &mut Vec<usize>,
    l: usize,
    a: usize,
    b: usize,
)
    requires
        fill_inv(fg@, width as int, old(labels)@, starts@, old(stack)@, l as int, a as int),
        l < NO_LABEL,
        a < fg@.len(),
        old(labels)@[a as int] == l,
        !old(stack)@.contains(a),
        adj(width as int, fg@.len() as int, a as int, b as int),
    ensures
        fill_inv(fg@, width as int, final(labels)@, starts@, final(stack)@, l as int, a as int),
        !final(stack)@.contains(a),
        forall|p: int| 0 <= p < fg@.len() && old(labels)@[p] != NO_LABEL ==> #[trigger] final(labels)@[p]
            == old(labels)@[p],
        fg@[b as int] ==> final(labels)@[b as int] == l,
        2 * unlabelled(final(labels)@, fg@.len() as int) + final(stack)@.len() <= 2 * unlabelled(
            old(labels)@,
            fg@.len() as int,
        ) + old(stack)@.len(),
{
    proof {
        lemma_visit_keeps(fg@, width as int, labels@, starts@, stack@, l as int, a as int, b as int);
        if fg@[b as int] && labels@[b as int] == NO_LABEL {
            lemma_unlabelled_update(labels@, b as int, l, fg@.len() as int);
        }
    }
    let ghost s0 = stack@;
    visit(fg, labels, stack, b, l);
    proof {
        if stack@.len() > s0.len() {
            assert(stack@ == s0.push(b));
            assert(b != a);
            if stack@.contains(a) {
                let k = choose|k: int| 0 <= k < stack@.len() && stack@[k] == a;
                assert(s0[k] == a);
            }
        }
    }
}

/// Flood-fills label `l` from the queued pixels until none is left.
fn fill(
    fg: &Vec<bool>,
    width: usize,
    labels: &mut Vec<usize>,
    starts: &Vec<usize>,
    stack: &mut Vec<usize>,
    l: usize,
)
    requires
        fill_inv(fg@, width as int, old(labels)@, starts@, old(stack)@, l as int, -1),
        l < NO_LABEL,
        width >= 1,
        fg@.len() + width < NO_LABEL,
    ensures
        fill_inv(fg@, width as int, final(labels)@, starts@, final(stack)@, l as int, -1),
        final(stack)@.len() == 0,
        forall|p: int| 0 <= p < fg@.len() && old(labels)@[p] != NO_LABEL ==> #[trigger] final(labels)@[p]
            == old(labels)@[p],
{
    let n = fg.len();
    let ghost l0 = labels@;
    while stack.len() > 0
        invariant
            n == fg@.len(),
            fill_inv(fg@, width as int, labels@, starts@, stack@, l as int, -1),
            l < NO_LABEL,
            width >= 1,
            fg@.len() + width < NO_LABEL,
            forall|p: int| 0 <= p < fg@.len() && l0[p] != NO_LABEL ==> #[trigger] labels@[p] == l0[p],
        decreases 2 * unlabelled(labels@, fg@.len() as int) + stack@.len(),
    {
        let ghost before = stack@;
        let ghost lb = labels@;
        let ghost m0 = 2 * unlabelled(labels@, n as int) + stack@.len();
        let a = match stack.pop() {
            Some(a) => a,
            None => {
                assert(false);
                return;
            },
        };
        proof {
            assert(before == stack@.push(a));
            assert(before[before.len() - 1] == a);
            assert(a < n && labels@[a as int] == l);
            if stack@.contains(a) {
                let k = choose|k: int| 0 <= k < stack@.len() && stack@[k] == a;
                assert(before[k] == a);
                assert(before[before.len() - 1] == a);
            }
            let w = width as int;
            let ni = n as int;
            assert forall|p: int, q: int|
                #![trigger labels@[p], adj(w, ni, p, q)]
                0 <= p < ni && p != a && labels@[p] == l && !stack@.contains(p as usize) && adj(w, ni, p, q)
                    && fg@[q] implies labels@[q] == l by {
                if before.contains(p as usize) {
                    let k = choose|k: int| 0 <= k < before.len() && before[k] == p as usize;
                    if k < stack@.len() {
                        assert(stack@[k] == p as usize);
                    }
                }
            }
            assert forall|k: int| 0 <= k < stack@.len() implies #[trigger] stack@[k] < ni && labels@[stack@[k] as int] == l by {
                assert(stack@[k] == before[k]);
            }
            assert forall|i: int, j: int| 0 <= i < stack@.len() && 0 <= j < stack@.len() && i != j implies stack@[i]
                != stack@[j] by {
                assert(stack@[i] == before[i]);
                assert(stack@[j] == before[j]);
            }
        }
        let ghost after_pop = labels@;
        assert(2 * unlabelled(labels@, n as int) + stack@.len() == m0 - 1);
        if a + 1 < n && a % width + 1 < width {
            visit_neighbour(fg, width, labels, starts, stack, l, a, a + 1);
        }
        if a >= 1 && (a - 1) % width + 1 < width {
            visit_neighbour(fg, width, labels, starts, stack, l, a, a - 1);
        }
        if a + width < n {
            visit_neighbour(fg, width, labels, starts, stack, l, a, a + width);
        }
        if a >= width {
            visit_neighbour(fg, width, labels, starts, stack, l, a, a - width);
        }
        proof {
            lemma_unlabelled_bounds(labels@, n as int);
            lemma_unlabelled_bounds(lb, n as int);
            let w = width as int;
            let ni = n as int;
            let ai = a as int;
            assert forall|p: int, q: int|
                #![trigger labels@[p], adj(w, ni, p, q)]
                0 <= p < ni && labels@[p] == l && !stack@.contains(p as usize) && adj(w, ni, p, q)
                    && fg@[q] implies labels@[q] == l by {
                if p == ai {
                    assert(q == ai + 1 || q == ai - 1 || q == ai + w || q == ai - w);
                }
            }
        }
    }
}

proof fn lemma_new_label(
    fg: Seq<bool>,
    w: int,
    labels: Seq<usize>,
    starts: Seq<usize>,
    l: int,
    start: int,
)
    requires
        fill_inv(fg, w, labels, starts, Seq::empty(), l, -1),
        0 <= start < fg.len(),
        fg[start],
        labels[start] == NO_LABEL,
        l + 1 < NO_LABEL,
    ensures
        fill_inv(
            fg,
            w,
            labels.update(start, (l + 1) as usize),
            starts.push(start as usize),
            seq![start as usize],
            l + 1,
            -1,
        ),
{
    let n = fg.len() as int;
    let nl = labels.update(start, (l + 1) as usize);
    let ns = starts.push(start as usize);
    let st = seq![start as usize];
    lemma_connected_refl(fg, w, start);
    assert forall|k: int| 0 <= k <= l + 1 implies #[trigger] ns[k] < n && nl[ns[k] as int] == k by {
        if k <= l {
            assert(ns[k] == starts[k]);
            assert(labels[starts[k] as int] == k);
            assert(starts[k] as int != start);
        }
    }
    assert forall|p: int| 0 <= p < n && #[trigger] nl[p] != NO_LABEL implies connected(
        fg,
        w,
        ns[nl[p] as int] as int,
        p,
    ) by {
        if p != start {
            assert(nl[p] == labels[p]);
            assert(ns[labels[p] as int] == starts[labels[p] as int]);
        }
    }
    assert forall|p: int, q: int|
        #![trigger nl[p], adj(w, n, p, q)]
        0 <= p < n && nl[p] != NO_LABEL && nl[p] < l + 1 && adj(w, n, p, q) && fg[q] implies nl[q]
        == nl[p] by {
        assert(p != start);
        assert(labels[p] != NO_LABEL);
        if labels[p] < l {
            assert(labels[q] == labels[p]);
        } else {
            assert(!Seq::<usize>::empty().contains(p as usize));
            assert(labels[q] == l);
        }
        if q == start {
            assert(false);
        }
    }
    assert forall|p: int, q: int|
        #![trigger nl[p], adj(w, n, p, q)]
        0 <= p < n && p != -1 && nl[p] == l + 1 && !st.contains(p as usize) && adj(w, n, p, q)
            && fg[q] implies nl[q] == l + 1 by {
        if p != start {
            assert(labels[p] == l + 1);
            assert(false);
        } else {
            assert(st[0] == start as usize);
        }
    }
}

proof fn lemma_labels_exact(fg: Seq<bool>, w: int, labels: Seq<usize>, starts: Seq<usize>, l: int)
    requires
        fill_inv(fg, w, labels, starts, Seq::empty(), l, -1),
        forall|p: int| 0 <= p < fg.len() && fg[p] ==> #[trigger] labels[p] != NO_LABEL,
    ensures
        forall|p: int, q: int|
            0 <= p < fg.len() && 0 <= q < fg.len() && fg[p] && fg[q] ==> (#[trigger] labels[p]
                == #[trigger] labels[q] <==> connected(fg, w, p, q)),
{
    let n = fg.len() as int;
    assert forall|p: int, q: int|
        0 <= p < n && 0 <= q < n && fg[p] && fg[q] implies (#[trigger] labels[p] == #[trigger] labels[q]
        <==> connected(fg, w, p, q)) by {
        assert(labels[p] != NO_LABEL);
        assert(labels[q] != NO_LABEL);
        if labels[p] == labels[q] {
            let s = starts[labels[p] as int] as int;
            assert(connected(fg, w, s, p));
            assert(connected(fg, w, s, q));
            lemma_connected_sym(fg, w, s, p);
            lemma_connected_trans(fg, w, p, s, q);
        }
        if connected(fg, w, p, q) {
            let lp = labels[p];
            let set = |x: int| 0 <= x < n && labels[x] == lp;
            assert forall|x: int, y: int| #[trigger] set(x) && #[trigger] adj(w, n, x, y) && fg[y] implies set(y) by {
                if labels[x] < l {
                    assert(labels[y] == labels[x]);
                } else {
                    assert(!Seq::<usize>::empty().contains(x as usize));
                    assert(labels[y] == l);
                }
            }
            let path = choose|path: Seq<int>| #[trigger] is_path(fg, w, path) && path[0] == p && path.last() == q;
            lemma_closed_holds_path(fg, w, set, path);
        }
    }
}

/// The connected foreground components of a `width`-wide grid: every
/// foreground pixel gets the label of its component (labels `0..`, in the
/// order their first pixel comes), background pixels get `NO_LABEL`; two
/// foreground pixels share a label exactly when they are connected.
/// `starts[k]` is the first pixel of component `k`: the starts increase, and
/// no pixel comes before the start of its label.
pub fn label_components(fg: &Vec<bool>, width: usize) -> (r: (Vec<usize>, Vec<usize>))
    requires
        width >= 1,
        fg@.len() + width < NO_LABEL,
    ensures
        r.0@.len() == fg@.len(),
        forall|p: int| 0 <= p < fg@.len() ==> (#[trigger] r.0@[p] == NO_LABEL) == !fg@[p],
        forall|p: int| 0 <= p < fg@.len() && fg@[p] ==> #[trigger] r.0@[p] < r.1@.len(),
        forall|k: int| 0 <= k < r.1@.len() ==> #[trigger] r.1@[k] < fg@.len() && r.0@[r.1@[k] as int] == k,
        forall|p: int, q: int|
            0 <= p < fg@.len() && 0 <= q < fg@.len() && fg@[p] && fg@[q] ==> (#[trigger] r.0@[p]
                == #[trigger] r.0@[q] <==> connected(fg@, width as int, p, q)),
        forall|j: int, k: int| 0 <= j < k < r.1@.len() ==> #[trigger] r.1@[j] < #[trigger] r.1@[k],
        forall|p: int| 0 <= p < fg@.len() && fg@[p] ==> r.1@[#[trigger] r.0@[p] as int] <= p,
        r.1@.len() <= fg@.len(),
{
    let n = fg.len();
    let mut labels: Vec<usize> = Vec::new();
    let mut i: usize = 0;
    while i < n
        invariant
            i <= n,
            n == fg@.len(),
            labels@.len() == i,
            forall|p: int| 0 <= p < i ==> #[trigger] labels@[p] == NO_LABEL,
        decreases n - i,
    {
        labels.push(NO_LABEL);
        i = i + 1;
    }
    let mut starts: Vec<usize> = Vec::new();
    let mut stack: Vec<usize> = Vec::new();
    let mut start: usize = 0;
    while start < n
        invariant
            start <= n,
            n == fg@.len(),
            width >= 1,
            fg@.len() + width < NO_LABEL,
            starts@.len() <= start,
            stack@.len() == 0,
            fill_inv(fg@, width as int, labels@, starts@, stack@, starts@.len() as int - 1, -1),
            forall|p: int| 0 <= p < start && fg@[p] ==> #[trigger] labels@[p] != NO_LABEL,
            forall|k: int| 0 <= k < starts@.len() ==> #[trigger] starts@[k] < start,
            forall|j: int, k: int| 0 <= j < k < starts@.len() ==> #[trigger] starts@[j] < #[trigger] starts@[k],
            forall|p: int| 0 <= p < n && #[trigger] labels@[p] != NO_LABEL ==> starts@[labels@[p] as int] <= p,
        decreases n - start,
    {
        if fg[start] && labels[start] == NO_LABEL {
            let l = starts.len();
            let ghost old_labels = labels@;
            let ghost old_starts = starts@;
            proof {
                assert(stack@ =~= Seq::<usize>::empty());
                lemma_new_label(fg@, width as int, labels@, starts@, l as int - 1, start as int);
            }
            starts.push(start);
            labels.set(start, l);
            stack.push(start);
            assert(stack@ =~= seq![start]);
            let ghost lb = labels@;
            assert forall|p: int| 0 <= p < n && #[trigger] lb[p] != NO_LABEL implies starts@[lb[p] as int] <= p by {
                if p != start {
                    assert(lb[p] == old_labels[p]);
                }
            }
            fill(fg, width, &mut labels, &starts, &mut stack, l);
            assert forall|p: int| 0 <= p < start + 1 && fg@[p] implies #[trigger] labels@[p] != NO_LABEL by {
                assert(lb[p] != NO_LABEL);
            }
            assert forall|p: int| 0 <= p < n && #[trigger] labels@[p] != NO_LABEL implies starts@[labels@[p] as int] <= p by {
                if lb[p] != NO_LABEL {
                    assert(labels@[p] == lb[p]);
                } else {
                    assert(fg@[p]);
                    assert(p > start);
                    assert(labels@[p] <= l);
                    if labels@[p] < l {
                        assert(starts@[labels@[p] as int] == old_starts[labels@[p] as int]);
                    }
                }
            }
        }
        start = start + 1;
    }
    proof {
        assert(stack@ =~= Seq::<usize>::empty());
        lemma_labels_exact(fg@, width as int, labels@, starts@, starts@.len() as int - 1);
    }
    (labels, starts)
}

/// Area and bounding box `(area, x0, y0, x1, y1)` of the pixels of `mask`
/// among the first `m` (x = index mod `w`, y = index div `w`); an empty
/// selection has the box `(i32::MAX, i32::MAX, -1, -1)`.
pub open spec fn mask_stats(mask: Seq<bool>, w: int, m: int) -> (int, int, int, int, int)
    decreases m,
{
    if m <= 0 {
        (0, i32::MAX as int, i32::MAX as int, -1, -1)
    } else {
        let (a, x0, y0, x1, y1) = mask_stats(mask, w, m - 1);
        let x = (m - 1) % w;
        let y = (m - 1) / w;
        if mask[m - 1] {
            (
                a + 1,
                if x < x0 { x } else { x0 },
                if y < y0 { y } else { y0 },
                if x > x1 { x } else { x1 },
                if y > y1 { y } else { y1 },
            )
        } else {
            (a, x0, y0, x1, y1)
        }
    }
}

/// The pixels of pixel `i`'s component.
pub open spec fn component_mask(fg: Seq<bool>, w: int, i: int) -> Seq<bool> {
    Seq::new(fg.len(), |p: int| fg[p] && connected(fg, w, i, p))
}

/// The pixels labelled `l`.
pub open spec fn label_mask(labels: Seq<usize>, l: int) -> Seq<bool> {
    Seq::new(labels.len(), |p: int| labels[p] == l)
}

proof fn lemma_mask_stats_bounds(mask: Seq<bool>, w: int, h: int, m: int, p: int)
    requires
        w >= 1,
        h >= 1,
        0 <= m <= mask.len(),
        mask.len() == w * h,
    ensures
        0 <= mask_stats(mask, w, m).0 <= m,
        (0 <= p < m && mask[p]) ==> mask_stats(mask, w, m).0 > 0 && 0 <= mask_stats(mask, w, m).1
            <= p % w <= mask_stats(mask, w, m).3 < w && 0 <= mask_stats(mask, w, m).2 <= p / w
            <= mask_stats(mask, w, m).4 < h,
        mask_stats(mask, w, m).0 > 0 ==> 0 <= mask_stats(mask, w, m).1 <= mask_stats(mask, w, m).3
            < w && 0 <= mask_stats(mask, w, m).2 <= mask_stats(mask, w, m).4 < h,
        mask_stats(mask, w, m).0 == 0 ==> mask_stats(mask, w, m).1 == i32::MAX
            && mask_stats(mask, w, m).2 == i32::MAX && mask_stats(mask, w, m).3 == -1
            && mask_stats(mask, w, m).4 == -1,
    decreases m,
{
    if m > 0 {
        lemma_mask_stats_bounds(mask, w, h, m - 1, p);
        let q = m - 1;
        assert(0 <= q % w < w) by (nonlinear_arith)
            requires w >= 1, q >= 0;
        assert(0 <= q / w < h) by (nonlinear_arith)
            requires w >= 1, 0 <= q < w * h;
        if 0 <= p < m && mask[p] {
            assert(0 <= p % w < w) by (nonlinear_arith)
                requires w >= 1, p >= 0;
            assert(0 <= p / w < h) by (nonlinear_arith)
                requires w >= 1, 0 <= p < w * h;
        }
    }
}

/// `p` is the first pixel, in scan order, of its foreground component.
pub open spec fn is_first_pixel(fg: Seq<bool>, w: int, p: int) -> bool {
    &&& 0 <= p < fg.len()
    &&& fg[p]
    &&& forall|q: int| 0 <= q < p && fg[q] ==> !#[trigger] connected(fg, w, q, p)
}

/// The first pixels of all components.
pub open spec fn first_pixels(fg: Seq<bool>, w: int) -> Seq<bool> {
    Seq::new(fg.len(), |p: int| is_first_pixel(fg, w, p))
}

/// In a labelling with the facts `label_components` gives, the first pixels
/// of the components are exactly the recorded starts.
proof fn lemma_first_pixels_are_starts(fg: Seq<bool>, w: int, labels: Seq<usize>, starts: Seq<usize>)
    requires
        labels.len() == fg.len(),
        forall|q: int| 0 <= q < fg.len() ==> (#[trigger] labels[q] == NO_LABEL) == !fg[q],
        forall|q: int| 0 <= q < fg.len() && fg[q] ==> #[trigger] labels[q] < starts.len(),
        forall|k: int| 0 <= k < starts.len() ==> #[trigger] starts[k] < fg.len() && labels[starts[k] as int] == k,
        forall|a: int, b: int|
            0 <= a < fg.len() && 0 <= b < fg.len() && fg[a] && fg[b] ==> (#[trigger] labels[a]
                == #[trigger] labels[b] <==> connected(fg, w, a, b)),
        forall|q: int| 0 <= q < fg.len() && fg[q] ==> starts[#[trigger] labels[q] as int] <= q,
    ensures
        forall|p: int|
            0 <= p < fg.len() ==> (#[trigger] is_first_pixel(fg, w, p) <==> fg[p] && starts[labels[p] as int] == p),
{
    assert forall|p: int| 0 <= p < fg.len() implies (#[trigger] is_first_pixel(fg, w, p) <==> fg[p]
        && starts[labels[p] as int] == p) by {
        if fg[p] {
            let s = starts[labels[p] as int] as int;
            assert(labels[s] == labels[p]);
            assert(labels[s] != NO_LABEL);
            assert(fg[s]);
            if s == p {
                assert forall|q: int| 0 <= q < p && fg[q] implies !#[trigger] connected(fg, w, q, p) by {
                    if connected(fg, w, q, p) {
                        assert(labels[q] == labels[p]);
                        assert(starts[labels[q] as int] <= q);
                    }
                }
            } else {
                assert(s < p);
                assert(connected(fg, w, s, p));
            }
        }
    }
}

/// How many first pixels come before `m`, held against the increasing starts.
proof fn lemma_first_count(fg: Seq<bool>, w: int, labels: Seq<usize>, starts: Seq<usize>, m: int)
    requires
        0 <= m <= fg.len(),
        labels.len() == fg.len(),
        starts.len() <= fg.len() < NO_LABEL,
        forall|q: int| 0 <= q < fg.len() ==> (#[trigger] labels[q] == NO_LABEL) == !fg[q],
        forall|q: int| 0 <= q < fg.len() && fg[q] ==> #[trigger] labels[q] < starts.len(),
        forall|k: int| 0 <= k < starts.len() ==> #[trigger] starts[k] < fg.len() && labels[starts[k] as int] == k,
        forall|j: int, k: int| 0 <= j < k < starts.len() ==> #[trigger] starts[j] < #[trigger] starts[k],
        forall|p: int|
            0 <= p < fg.len() ==> (#[trigger] is_first_pixel(fg, w, p) <==> fg[p] && starts[labels[p] as int] == p),
    ensures
        0 <= mask_stats(first_pixels(fg, w), w, m).0 <= starts.len(),
        mask_stats(first_pixels(fg, w), w, m).0 < starts.len() ==> starts[mask_stats(first_pixels(fg, w), w, m).0] >= m,
        mask_stats(first_pixels(fg, w), w, m).0 > 0 ==> starts[mask_stats(first_pixels(fg, w), w, m).0 - 1] < m,
    decreases m,
{
    if m > 0 {
        lemma_first_count(fg, w, labels, starts, m - 1);
        let c = mask_stats(first_pixels(fg, w), w, m - 1).0;
        let q = m - 1;
        assert(first_pixels(fg, w)[q] == is_first_pixel(fg, w, q));
        if is_first_pixel(fg, w, q) {
            let k = labels[q] as int;
            assert(starts[k] == q);
            if k < c {
                if k < c - 1 {
                    assert(starts[k] < starts[c - 1]);
                }
                assert(false);
            }
            if k > c {
                assert(starts[c] < starts[k]);
                assert(false);
            }
            if k + 1 < starts.len() {
                assert(starts[k] < starts[k + 1]);
            }
        } else if c < starts.len() {
            if starts[c] == q {
                assert(labels[q] == c);
                assert(fg[q]);
                assert(false);
            }
        }
    }
}

/// The pixels set in `white` or in `color`.
pub open spec fn foreground(white: Seq<bool>, color: Seq<bool>) -> Seq<bool> {
    Seq::new(white.len(), |p: int| white[p] || color[p])
}

/// The verdict on a component with these statistics in a cell `w`×`h`.
pub open spec fn stats_verdict(s: (int, int, int, int, int), w: int, h: int) -> Option<ComponentReject> {
    component_verdict_spec(s.0, s.1, s.2, s.3, s.4, w, h)
}

/// Pixel `p` is foreground and its component is kept in a cell `w`×`h`.
pub open spec fn pixel_kept(fg: Seq<bool>, w: int, h: int, p: int) -> bool {
    fg[p] && stats_verdict(mask_stats(component_mask(fg, w, p), w, fg.len() as int), w, h) is None
}

/// The pixels of `mask` that the component filter keeps, `fg` being the
/// whole foreground.
pub open spec fn kept_mask(mask: Seq<bool>, fg: Seq<bool>, w: int, h: int) -> Seq<bool> {
    Seq::new(mask.len(), |p: int| mask[p] && pixel_kept(fg, w, h, p))
}

/// An executable statistics tuple `(area, x0, y0, x1, y1)` as integers.
pub open spec fn stats_view(t: (usize, i32, i32, i32, i32)) -> (int, int, int, int, int) {
    (t.0 as int, t.1 as int, t.2 as int, t.3 as int, t.4 as int)
}

/// What the component filter leaves in a cell: its white and coloured pixel
/// counts, the inclusive bounding box `(x0, y0, x1, y1)` of what is left, and
/// every component found, kept or not, in the order of its first pixel.
#[derive(Debug, Clone, PartialEq, Eq)]
pub struct ComponentStats {
    pub white_px: usize,
    pub color_px: usize,
    pub bbox: Option<(i32, i32, i32, i32)>,
    pub components: Vec<ComponentInfo>,
}

/// The pixels of `mask` in pixel `p`'s component.
pub open spec fn component_part(mask: Seq<bool>, fg: Seq<bool>, w: int, p: int) -> Seq<bool> {
    Seq::new(fg.len(), |q: int| fg[q] && connected(fg, w, p, q) && mask[q])
}

/// The pixels of `mask` labelled `l`.
pub open spec fn label_part(labels: Seq<usize>, mask: Seq<bool>, l: int) -> Seq<bool> {
    Seq::new(labels.len(), |q: int| labels[q] == l && mask[q])
}

/// `comps` lists the components of the union of `white` and `color` in a
/// cell `w`×`h`, one for each first pixel, in scan order.
pub open spec fn lists_components(comps: Seq<ComponentInfo>, white: Seq<bool>, color: Seq<bool>, w: int, h: int) -> bool {
    &&& comps.len() == mask_stats(first_pixels(foreground(white, color), w), w, white.len() as int).0
    &&& forall|k: int| 0 <= k < comps.len() ==> #[trigger] listed_at(comps[k], white, color, w, h, k)
}

/// `info` is the `k`-th component of the union of `white` and `color`:
/// that of the `k`-th first pixel.
pub open spec fn listed_at(info: ComponentInfo, white: Seq<bool>, color: Seq<bool>, w: int, h: int, k: int) -> bool {
    exists|p: int|
        #![trigger is_first_pixel(foreground(white, color), w, p)]
        is_first_pixel(foreground(white, color), w, p) && mask_stats(
            first_pixels(foreground(white, color), w),
            w,
            p,
        ).0 == k && describes(info, white, color, w, h, p)
}

/// `info` describes pixel `p`'s component of the union of `white` and
/// `color` in a cell `w`×`h`: its area and bounding box, its white and
/// coloured pixels, and the verdict on it.
pub open spec fn describes(info: ComponentInfo, white: Seq<bool>, color: Seq<bool>, w: int, h: int, p: int) -> bool {
    let fg = foreground(white, color);
    let s = mask_stats(component_mask(fg, w, p), w, fg.len() as int);
    &&& info.area == s.0
    &&& info.bbox.0 == s.1
    &&& info.bbox.1 == s.2
    &&& info.bbox.2 == s.3
    &&& info.bbox.3 == s.4
    &&& info.white_px == mask_stats(component_part(white, fg, w, p), w, fg.len() as int).0
    &&& info.color_px == mask_stats(component_part(color, fg, w, p), w, fg.len() as int).0
    &&& info.reject == stats_verdict(s, w, h)
    &&& info.kept == (info.reject is None)
}

/// Adds the pixel at `(x, y)` to statistics `t`.
fn add_pixel(t: (usize, i32, i32, i32, i32), x: i32, y: i32) -> (r: (usize, i32, i32, i32, i32))
    requires
        t.0 < usize::MAX,
    ensures
        r.0 == t.0 + 1,
        r.1 == if x < t.1 { x } else { t.1 },
        r.2 == if y < t.2 { y } else { t.2 },
        r.3 == if x > t.3 { x } else { t.3 },
        r.4 == if y > t.4 { y } else { t.4 },
{
    (
        t.0 + 1,
        if x < t.1 { x } else { t.1 },
        if y < t.2 { y } else { t.2 },
        if x > t.3 { x } else { t.3 },
        if y > t.4 { y } else { t.4 },
    )
}

/// Coordinates of pixel `j` in a `width`-wide grid of `width * height` pixels.
fn coords(j: usize, width: usize, height: usize) -> (r: (i32, i32))
    requires
        j < width * height,
        width * height <= i32::MAX,
    ensures
        r.0 == j as int % width as int,
        r.1 == j as int / width as int,
        0 <= r.0 < width,
        0 <= r.1 < height,
{
    assert(1 <= width && 1 <= height && width <= width * height && height <= width * height)
        by (nonlinear_arith)
        requires j < width * height;
    assert(j / width < height) by (nonlinear_arith)
        requires j < width * height, width >= 1;
    ((j % width) as i32, (j / width) as i32)
}

/// Area and bounding box of every label below `count`.
fn label_stats(labels: &Vec<usize>, count: usize, width: usize, height: usize) -> (r: Vec<
    (usize, i32, i32, i32, i32),
>)
    requires
        labels@.len() == width * height,
        width * height <= i32::MAX,
        forall|p: int| 0 <= p < labels@.len() && #[trigger] labels@[p] != NO_LABEL ==> labels@[p] < count,
    ensures
        r@.len() == count,
        forall|l: int|
            0 <= l < count ==> stats_view(#[trigger] r@[l]) == mask_stats(
                label_mask(labels@, l),
                width as int,
                labels@.len() as int,
            ),
{
    let n = labels.len();
    let mut stats: Vec<(usize, i32, i32, i32, i32)> = Vec::new();
    let mut k: usize = 0;
    while k < count
        invariant
            k <= count,
            stats@.len() == k,
            forall|l: int| 0 <= l < k ==> #[trigger] stats@[l] == (0usize, i32::MAX, i32::MAX, -1i32, -1i32),
        decreases count - k,
    {
        stats.push((0, i32::MAX, i32::MAX, -1, -1));
        k = k + 1;
    }
    let mut j: usize = 0;
    while j < n
        invariant
            j <= n,
            n == labels@.len(),
            n == width * height,
            width * height <= i32::MAX,
            stats@.len() == count,
            forall|p: int| 0 <= p < labels@.len() && #[trigger] labels@[p] != NO_LABEL ==> labels@[p] < count,
            forall|l: int|
                0 <= l < count ==> stats_view(#[trigger] stats@[l]) == mask_stats(
                    label_mask(labels@, l),
                    width as int,
                    j as int,
                ),
        decreases n - j,
    {
        let lj = labels[j];
        let ghost old_stats = stats@;
        if lj != NO_LABEL {
            let (x, y) = coords(j, width, height);
            let t = stats[lj];
            proof {
                assert(stats_view(old_stats[lj as int]) == mask_stats(label_mask(labels@, lj as int), width as int, j as int));
                lemma_mask_stats_bounds(label_mask(labels@, lj as int), width as int, height as int, j as int, 0);
            }
            let nt = add_pixel(t, x, y);
            stats.set(lj, nt);
        }
        proof {
            assert forall|l: int| 0 <= l < count implies stats_view(#[trigger] stats@[l]) == mask_stats(
                label_mask(labels@, l),
                width as int,
                j + 1,
            ) by {
                assert(stats_view(old_stats[l]) == mask_stats(label_mask(labels@, l), width as int, j as int));
                assert(label_mask(labels@, l)[j as int] == (labels@[j as int] == l));
            }
        }
        j = j + 1;
    }
    stats
}

/// How many pixels of `mask` carry each label below `count`.
fn label_counts(labels: &Vec<usize>, mask: &Vec<bool>, count: usize, width: usize, height: usize) -> (r: Vec<usize>)
    requires
        labels@.len() == width * height,
        mask@.len() == labels@.len(),
        forall|p: int| 0 <= p < labels@.len() && #[trigger] labels@[p] != NO_LABEL ==> labels@[p] < count,
    ensures
        r@.len() == count,
        forall|l: int|
            0 <= l < count ==> #[trigger] r@[l] == mask_stats(
                label_part(labels@, mask@, l),
                width as int,
                labels@.len() as int,
            ).0,
{
    let n = labels.len();
    let mut counts: Vec<usize> = Vec::new();
    let mut k: usize = 0;
    while k < count
        invariant
            k <= count,
            counts@.len() == k,
            forall|l: int| 0 <= l < k ==> #[trigger] counts@[l] == 0,
        decreases count - k,
    {
        counts.push(0);
        k = k + 1;
    }
    let mut j: usize = 0;
    while j < n
        invariant
            j <= n,
            n == labels@.len(),
            n == mask@.len(),
            counts@.len() == count,
            forall|p: int| 0 <= p < labels@.len() && #[trigger] labels@[p] != NO_LABEL ==> labels@[p] < count,
            forall|l: int|
                0 <= l < count ==> #[trigger] counts@[l] == mask_stats(
                    label_part(labels@, mask@, l),
                    width as int,
                    j as int,
                ).0,
            forall|l: int| 0 <= l < count ==> #[trigger] counts@[l] <= j,
        decreases n - j,
    {
        let lj = labels[j];
        let ghost before = counts@;
        if lj != NO_LABEL && mask[j] {
            let c = counts[lj];
            counts.set(lj, c + 1);
        }
        proof {
            assert forall|l: int| 0 <= l < count implies #[trigger] counts@[l] == mask_stats(
                label_part(labels@, mask@, l),
                width as int,
                j + 1,
            ).0 && counts@[l] <= j + 1 by {
                assert(before[l] == mask_stats(label_part(labels@, mask@, l), width as int, j as int).0);
                assert(label_part(labels@, mask@, l)[j as int] == (labels@[j as int] == l && mask@[j as int]));
            }
        }
        j = j + 1;
    }
    counts
}

/// In a labelling with the facts `label_components` gives, the pixels
/// labelled like foreground pixel `p` are exactly `p`'s component.
proof fn lemma_label_mask_is_component(fg: Seq<bool>, w: int, labels: Seq<usize>, count: int, p: int)
    requires
        labels.len() == fg.len(),
        0 <= p < fg.len(),
        fg[p],
        forall|q: int| 0 <= q < fg.len() ==> (#[trigger] labels[q] == NO_LABEL) == !fg[q],
        forall|q: int| 0 <= q < fg.len() && fg[q] ==> #[trigger] labels[q] < count,
        forall|a: int, b: int|
            0 <= a < fg.len() && 0 <= b < fg.len() && fg[a] && fg[b] ==> (#[trigger] labels[a]
                == #[trigger] labels[b] <==> connected(fg, w, a, b)),
    ensures
        label_mask(labels, labels[p] as int) =~= component_mask(fg, w, p),
{
    assert forall|q: int| 0 <= q < fg.len() implies label_mask(labels, labels[p] as int)[q]
        == component_mask(fg, w, p)[q] by {
        if fg[q] {
            assert(labels[p] == labels[q] <==> connected(fg, w, p, q));
        } else {
            assert(labels[q] == NO_LABEL);
            assert(labels[p] != NO_LABEL);
        }
    }
}

/// Drops from the masks of a `width`×`height` cell every connected
/// component of their union (4-neighbourhood) that `component_verdict_spec`
/// rejects (noise, or a thin long line left by the grid), and gives the
/// white and coloured pixel counts and the bounding box of what is left.
pub fn filter_components(white: &mut Vec<bool>, color: &mut Vec<bool>, width: usize, height: usize) -> (r:
    ComponentStats)
    requires
        old(white)@.len() == width * height,
        old(color)@.len() == width * height,
        width * height <= i32::MAX,
    ensures
        final(white)@ == kept_mask(
            old(white)@,
            foreground(old(white)@, old(color)@),
            width as int,
            height as int,
        ),
        final(color)@ == kept_mask(
            old(color)@,
            foreground(old(white)@, old(color)@),
            width as int,
            height as int,
        ),
        r.white_px == mask_stats(final(white)@, width as int, final(white)@.len() as int).0,
        r.color_px == mask_stats(final(color)@, width as int, final(color)@.len() as int).0,
        ({
            let fg = foreground(old(white)@, old(color)@);
            let s = mask_stats(kept_mask(fg, fg, width as int, height as int), width as int, fg.len() as int);
            &&& (r.bbox is Some <==> s.0 > 0)
            &&& (r.bbox matches Some(b) ==> b.0 == s.1 && b.1 == s.2 && b.2 == s.3 && b.3 == s.4)
        }),
        lists_components(r.components@, old(white)@, old(color)@, width as int, height as int),
{
    let n = white.len();
    let ghost w0 = white@;
    let ghost c0 = color@;
    if n == 0 {
        assert(white@ =~= kept_mask(w0, foreground(w0, c0), width as int, height as int));
        assert(color@ =~= kept_mask(c0, foreground(w0, c0), width as int, height as int));
        return ComponentStats { white_px: 0, color_px: 0, bbox: None, components: Vec::new() };
    }
    assert(1 <= width && 1 <= height && width <= width * height && height <= width * height)
        by (nonlinear_arith)
        requires n == width * height, n > 0;
    let mut fg: Vec<bool> = Vec::new();
    let mut i: usize = 0;
    while i < n
        invariant
            i <= n,
            n == w0.len(),
            n == c0.len(),
            white@ == w0,
            color@ == c0,
            fg@.len() == i,
            forall|p: int| 0 <= p < i ==> #[trigger] fg@[p] == (w0[p] || c0[p]),
        decreases n - i,
    {
        fg.push(white[i] || color[i]);
        i = i + 1;
    }
    let ghost fgs = fg@;
    assert(fgs =~= foreground(w0, c0));
    let (labels, starts) = label_components(&fg, width);
    let count = starts.len();
    let stats = label_stats(&labels, count, width, height);
    let white_counts = label_counts(&labels, white, count, width, height);
    let color_counts = label_counts(&labels, color, count, width, height);
    let mut verdicts: Vec<Option<ComponentReject>> = Vec::new();
    let mut keep: Vec<bool> = Vec::new();
    let mut l: usize = 0;
    while l < count
        invariant
            l <= count,
            count == starts@.len(),
            stats@.len() == count,
            n == fgs.len(),
            n == labels@.len(),
            n == width * height,
            1 <= width,
            1 <= height,
            width * height <= i32::MAX,
            forall|k: int| 0 <= k < starts@.len() ==> #[trigger] starts@[k] < n && labels@[starts@[k] as int] == k,
            forall|k: int|
                0 <= k < count ==> stats_view(#[trigger] stats@[k]) == mask_stats(
                    label_mask(labels@, k),
                    width as int,
                    n as int,
                ),
            keep@.len() == l,
            verdicts@.len() == l,
            forall|k: int|
                0 <= k < l ==> #[trigger] keep@[k] == (stats_verdict(stats_view(stats@[k]), width as int, height as int) is None),
            forall|k: int|
                0 <= k < l ==> #[trigger] verdicts@[k] == stats_verdict(stats_view(stats@[k]), width as int, height as int),
        decreases count - l,
    {
        let t = stats[l];
        proof {
            let s = starts@[l as int] as int;
            assert(stats_view(stats@[l as int]) == mask_stats(label_mask(labels@, l as int), width as int, n as int));
            assert(label_mask(labels@, l as int)[s]);
            lemma_mask_stats_bounds(label_mask(labels@, l as int), width as int, height as int, n as int, s);
        }
        let v = component_verdict(t.0, (t.1, t.2, t.3, t.4), width, height);
        keep.push(v.is_none());
        verdicts.push(v);
        l = l + 1;
    }
    assert forall|p: int| 0 <= p < n && fgs[p] implies #[trigger] keep@[labels@[p] as int] == pixel_kept(
        fgs,
        width as int,
        height as int,
        p,
    ) by {
        lemma_label_mask_is_component(fgs, width as int, labels@, count as int, p);
        assert(stats_view(stats@[labels@[p] as int]) == mask_stats(label_mask(labels@, labels@[p] as int), width as int, n as int));
    }
    proof {
        lemma_first_pixels_are_starts(fgs, width as int, labels@, starts@);
    }
    let ghost firsts = first_pixels(fgs, width as int);
    let mut components: Vec<ComponentInfo> = Vec::new();
    let mut k: usize = 0;
    while k < count
        invariant
            k <= count,
            count == starts@.len(),
            stats@.len() == count,
            verdicts@.len() == count,
            white_counts@.len() == count,
            color_counts@.len() == count,
            n == fgs.len(),
            n == w0.len(),
            n == c0.len(),
            n == labels@.len(),
            fgs == foreground(w0, c0),
            firsts == first_pixels(fgs, width as int),
            count <= n,
            n < NO_LABEL,
            forall|q: int| 0 <= q < n ==> (#[trigger] labels@[q] == NO_LABEL) == !fgs[q],
            forall|q: int| 0 <= q < n && fgs[q] ==> #[trigger] labels@[q] < count,
            forall|j: int| 0 <= j < count ==> #[trigger] starts@[j] < n && labels@[starts@[j] as int] == j,
            forall|i: int, j: int| 0 <= i < j < count ==> #[trigger] starts@[i] < #[trigger] starts@[j],
            forall|a: int, b: int|
                0 <= a < n && 0 <= b < n && fgs[a] && fgs[b] ==> (#[trigger] labels@[a]
                    == #[trigger] labels@[b] <==> connected(fgs, width as int, a, b)),
            forall|p: int|
                0 <= p < n ==> (#[trigger] is_first_pixel(fgs, width as int, p) <==> fgs[p] && starts@[labels@[p] as int] == p),
            forall|j: int|
                0 <= j < count ==> stats_view(#[trigger] stats@[j]) == mask_stats(
                    label_mask(labels@, j),
                    width as int,
                    n as int,
                ),
            forall|j: int|
                0 <= j < count ==> #[trigger] verdicts@[j] == stats_verdict(stats_view(stats@[j]), width as int, height as int),
            forall|j: int|
                0 <= j < count ==> #[trigger] white_counts@[j] == mask_stats(
                    label_part(labels@, w0, j),
                    width as int,
                    n as int,
                ).0,
            forall|j: int|
                0 <= j < count ==> #[trigger] color_counts@[j] == mask_stats(
                    label_part(labels@, c0, j),
                    width as int,
                    n as int,
                ).0,
            components@.len() == k,
            forall|j: int|
                0 <= j < k ==> describes(#[trigger] components@[j], w0, c0, width as int, height as int, starts@[j] as int),
        decreases count - k,
    {
        let t = stats[k];
        let v = verdicts[k];
        let info = ComponentInfo {
            area: t.0,
            bbox: (t.1, t.2, t.3, t.4),
            white_px: white_counts[k],
            color_px: color_counts[k],
            kept: v.is_none(),
            reject: v,
        };
        proof {
            let p = starts@[k as int] as int;
            assert(labels@[p] == k);
            assert(fgs[p]);
            lemma_label_mask_is_component(fgs, width as int, labels@, count as int, p);
            assert(label_part(labels@, w0, k as int) =~= component_part(w0, fgs, width as int, p));
            assert(label_part(labels@, c0, k as int) =~= component_part(c0, fgs, width as int, p));
            assert(stats_view(stats@[k as int]) == mask_stats(label_mask(labels@, k as int), width as int, n as int));
            assert(white_counts@[k as int] == mask_stats(label_part(labels@, w0, k as int), width as int, n as int).0);
            assert(color_counts@[k as int] == mask_stats(label_part(labels@, c0, k as int), width as int, n as int).0);
            assert(verdicts@[k as int] == stats_verdict(stats_view(stats@[k as int]), width as int, height as int));
        }
        components.push(info);
        k = k + 1;
    }
    proof {
        lemma_first_count(fgs, width as int, labels@, starts@, n as int);
        let c = mask_stats(firsts, width as int, n as int).0;
        if c < count {
            assert(starts@[c] < n);
        }
        assert(foreground(w0, c0) == fgs);
        assert forall|j: int| 0 <= j < components@.len() implies #[trigger] listed_at(
            components@[j],
            w0,
            c0,
            width as int,
            height as int,
            j,
        ) by {
            let p = starts@[j] as int;
            lemma_first_count(fgs, width as int, labels@, starts@, p);
            let cp = mask_stats(firsts, width as int, p).0;
            if cp < j {
                if cp < count {
                    assert(starts@[cp] < starts@[j]);
                }
            }
            if cp > j {
                if j < cp - 1 {
                    assert(starts@[j] < starts@[cp - 1]);
                }
            }
            assert(labels@[p] == j);
            assert(is_first_pixel(fgs, width as int, p));
            assert(is_first_pixel(foreground(w0, c0), width as int, p));
            assert(describes(components@[j], w0, c0, width as int, height as int, p));
        }
    }
    assert(lists_components(components@, w0, c0, width as int, height as int));
    let ghost km = kept_mask(fgs, fgs, width as int, height as int);
    let ghost wk = kept_mask(w0, fgs, width as int, height as int);
    let ghost ck = kept_mask(c0, fgs, width as int, height as int);
    let mut wp: usize = 0;
    let mut cp: usize = 0;
    let mut bb: (usize, i32, i32, i32, i32) = (0, i32::MAX, i32::MAX, -1, -1);
    let mut i: usize = 0;
    while i < n
        invariant
            i <= n,
            n == fgs.len(),
            n == w0.len(),
            n == c0.len(),
            n == labels@.len(),
            n == width * height,
            width * height <= i32::MAX,
            fgs == foreground(w0, c0),
            keep@.len() == count,
            km == kept_mask(fgs, fgs, width as int, height as int),
            wk == kept_mask(w0, fgs, width as int, height as int),
            ck == kept_mask(c0, fgs, width as int, height as int),
            forall|p: int| 0 <= p < n ==> (#[trigger] labels@[p] == NO_LABEL) == !fgs[p],
            forall|p: int| 0 <= p < n && fgs[p] ==> #[trigger] labels@[p] < count,
            forall|p: int| 0 <= p < n && fgs[p] ==> #[trigger] keep@[labels@[p] as int] == pixel_kept(
                fgs,
                width as int,
                height as int,
                p,
            ),
            white@.len() == n,
            color@.len() == n,
            forall|p: int| 0 <= p < n ==> #[trigger] white@[p] == if p < i { wk[p] } else { w0[p] },
            forall|p: int| 0 <= p < n ==> #[trigger] color@[p] == if p < i { ck[p] } else { c0[p] },
            wp == mask_stats(wk, width as int, i as int).0,
            cp == mask_stats(ck, width as int, i as int).0,
            stats_view(bb) == mask_stats(km, width as int, i as int),
            lists_components(components@, w0, c0, width as int, height as int),
        decreases n - i,
    {
        proof {
            lemma_mask_stats_bounds(wk, width as int, height as int, i as int, 0);
            lemma_mask_stats_bounds(ck, width as int, height as int, i as int, 0);
            lemma_mask_stats_bounds(km, width as int, height as int, i as int, 0);
        }
        let lbl = labels[i];
        if lbl != NO_LABEL {
            if !keep[lbl] {
                white.set(i, false);
                color.set(i, false);
            } else {
                let (x, y) = coords(i, width, height);
                bb = add_pixel(bb, x, y);
                if white[i] {
                    wp = wp + 1;
                }
                if color[i] {
                    cp = cp + 1;
                }
            }
        }
        proof {
            assert(km[i as int] == pixel_kept(fgs, width as int, height as int, i as int));
            assert(wk[i as int] == (w0[i as int] && pixel_kept(fgs, width as int, height as int, i as int)));
            assert(ck[i as int] == (c0[i as int] && pixel_kept(fgs, width as int, height as int, i as int)));
        }
        i = i + 1;
    }
    proof {
        assert(white@ =~= wk);
        assert(color@ =~= ck);
        lemma_mask_stats_bounds(km, width as int, height as int, n as int, 0);
    }
    let bbox = if bb.3 >= bb.1 && bb.4 >= bb.2 {
        Some((bb.1, bb.2, bb.3, bb.4))
    } else {
        None
    };
    ComponentStats { white_px: wp, color_px: cp, bbox, components }
}

} // verus!
