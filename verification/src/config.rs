//! Slot configuration kept in config.json and in profiles.
use vstd::prelude::*;
use std::collections::HashMap;
use crate::catalog::{PluginStratagem, PLUGIN_SLOT_MARK};
use crate::text::{
    decimal_02, is_blank, push_decimal_02, push_str, str_eq, str_is_blank, string_of, to_uppercase,
    uppercase,
};

verus! {

/// Number of H2AC slots (01..10).
pub const SLOT_COUNT: usize = 10;

/// What a stored slot value becomes after loading: out-of-range built-in
/// indices are cleared, the plugin mark is kept.
pub open spec fn sanitize_value(v: Option<usize>, catalog_len: usize) -> Option<usize> {
    match v {
        Some(i) => if i >= catalog_len && i != PLUGIN_SLOT_MARK {
            None
        } else {
            Some(i)
        },
        None => None,
    }
}

/// The slot list after loading: resized to `SLOT_COUNT` (missing slots empty)
/// and every value sanitized.
pub open spec fn sanitized_loadout(s: Seq<Option<usize>>, catalog_len: usize) -> Seq<Option<usize>> {
    Seq::new(
        SLOT_COUNT as nat,
        |i: int|
            if i < s.len() {
                sanitize_value(s[i], catalog_len)
            } else {
                None
            },
    )
}

/// Normalises a slot list: pad / truncate to `SLOT_COUNT` and clear built-in
/// indices the catalog (of `catalog_len` entries) does not have.
pub fn sanitize_loadout(loadout: &mut Vec<Option<usize>>, catalog_len: usize)
    ensures
        final(loadout)@ == sanitized_loadout(old(loadout)@, catalog_len),
{
    let ghost orig = loadout@;
    loadout.truncate(SLOT_COUNT);
    while loadout.len() < SLOT_COUNT
        invariant
            loadout@.len() <= SLOT_COUNT,
            orig.len() <= loadout@.len() || loadout@.len() == SLOT_COUNT,
            forall|i: int| 0 <= i < loadout@.len() ==> #[trigger] loadout@[i] == if i < orig.len() {
                orig[i]
            } else {
                None
            },
        decreases SLOT_COUNT - loadout@.len(),
    {
        loadout.push(None);
    }
    let mut i: usize = 0;
    while i < SLOT_COUNT
        invariant
            loadout@.len() == SLOT_COUNT,
            i <= SLOT_COUNT,
            forall|k: int| 0 <= k < i ==> #[trigger] loadout@[k] == sanitize_value(
                if k < orig.len() {
                    orig[k]
                } else {
                    None
                },
                catalog_len,
            ),
            forall|k: int| i <= k < SLOT_COUNT ==> #[trigger] loadout@[k] == if k < orig.len() {
                orig[k]
            } else {
                None
            },
        decreases SLOT_COUNT - i,
    {
        match loadout[i] {
            Some(v) => {
                if v >= catalog_len && v != PLUGIN_SLOT_MARK {
                    loadout.set(i, None);
                }
            },
            None => {},
        }
        i = i + 1;
    }
    assert(loadout@ =~= sanitized_loadout(orig, catalog_len));
}

/// Migration of a hotkey that older configurations kept under the compact
/// mode section: the legacy value moves to the global field when it is not
/// blank and the global field is absent or blank.
pub open spec fn migrated_hotkey_spec(legacy: Option<Seq<char>>, current: Option<Seq<char>>) -> Option<
    Seq<char>,
> {
    match legacy {
        Some(k) => if !is_blank(k) && match current {
            Some(c) => is_blank(c),
            None => true,
        } {
            Some(k)
        } else {
            None
        },
        None => None,
    }
}

/// The value to write into the global hotkey field when migrating an old
/// configuration (`None`: leave the field as it is). `current` is the
/// field's text, `None` when it is absent or not text.
pub fn migrated_hotkey(legacy: Option<&str>, current: Option<&str>) -> (r: Option<String>)
    ensures
        match migrated_hotkey_spec(
            match legacy {
                Some(k) => Some(k@),
                None => None,
            },
            match current {
                Some(c) => Some(c@),
                None => None,
            },
        ) {
            Some(k) => r matches Some(s) && s@ == k,
            None => r is None,
        },
{
    match legacy {
        Some(k) => {
            let current_blank = match current {
                Some(c) => str_is_blank(c),
                None => true,
            };
            if !str_is_blank(k) && current_blank {
                Some(string_of(k))
            } else {
                None
            }
        },
        None => None,
    }
}

/// A saved profile: slot assignment, slot hotkeys and plugin slot data.
#[derive(Debug)]
pub struct Profile {
    pub loadout: Vec<Option<usize>>,
    pub slot_hotkeys: HashMap<String, String>,
    /// Plugin slot data (key = slot index as text).
    pub plugin_slots: HashMap<String, PluginStratagem>,
}

/// Views of `(key, owner)` pairs.
pub open spec fn binding_views(v: Seq<(String, String)>) -> Seq<(Seq<char>, Seq<char>)> {
    v.map_values(|p: (String, String)| (p.0@, p.1@))
}

/// Index of the first of the first `n` bindings whose key is `k`.
pub open spec fn first_with_key(e: Seq<(Seq<char>, Seq<char>)>, k: Seq<char>, n: int) -> Option<int>
    decreases n,
{
    if n <= 0 {
        None
    } else {
        match first_with_key(e, k, n - 1) {
            Some(j) => Some(j),
            None => if e[n - 1].0 == k {
                Some(n - 1)
            } else {
                None
            },
        }
    }
}

/// The message for key `k` bound by `first` and again by `owner`.
pub open spec fn conflict_message(k: Seq<char>, first: Seq<char>, owner: Seq<char>) -> Seq<char> {
    "快捷键 "@ + uppercase(k) + " 同时绑定了 "@ + first + " 与 "@ + owner
}

/// The conflicts among the first `n` bindings: one message for each binding
/// with a non-empty key that an earlier binding already holds, naming the
/// first holder.
pub open spec fn conflicts_spec(e: Seq<(Seq<char>, Seq<char>)>, n: int) -> Seq<Seq<char>>
    decreases n,
{
    if n <= 0 {
        Seq::empty()
    } else {
        let prev = conflicts_spec(e, n - 1);
        let (k, o) = e[n - 1];
        if k.len() == 0 {
            prev
        } else {
            match first_with_key(e, k, n - 1) {
                Some(j) => prev.push(conflict_message(k, e[j].1, o)),
                None => prev,
            }
        }
    }
}

proof fn lemma_first_with_key_stays(e: Seq<(Seq<char>, Seq<char>)>, k: Seq<char>, m: int, n: int)
    requires
        0 <= m <= n,
        first_with_key(e, k, m) is Some,
    ensures
        first_with_key(e, k, n) == first_with_key(e, k, m),
    decreases n - m,
{
    if n > m {
        lemma_first_with_key_stays(e, k, m, n - 1);
    }
}

/// Global hotkey conflicts: the hotkeys (listening switch, auto loadout,
/// cancel, compact overlay, then the slots in slot order) may not share a
/// key. `bindings` holds each `(key, owner)` in that order, the key as the
/// hotkey module normalises it (an empty key is unbound); the result holds
/// one readable message per binding whose key an earlier one holds (empty
/// when there is no conflict).
pub fn hotkey_conflicts(bindings: &[(String, String)]) -> (r: Vec<String>)
    ensures
        r@.map_values(|s: String| s@) == conflicts_spec(
            binding_views(bindings@),
            bindings@.len() as int,
        ),
{
    let ghost e = binding_views(bindings@);
    let mut out: Vec<String> = Vec::new();
    let mut i: usize = 0;
    while i < bindings.len()
        invariant
            i <= bindings@.len(),
            e == binding_views(bindings@),
            out@.map_values(|s: String| s@) == conflicts_spec(e, i as int),
        decreases bindings@.len() - i,
    {
        let key = bindings[i].0.as_str();
        let owner = bindings[i].1.as_str();
        proof {
            assert(e[i as int] == (key@, owner@));
        }
        proof {
            reveal_strlit("");
        }
        let unbound = str_eq(key, "");
        proof {
            assert(""@.len() == 0);
            if key@.len() == 0 {
                assert(key@ =~= ""@);
            }
        }
        assert(unbound == (key@.len() == 0));
        if !unbound {
            let mut found: Option<usize> = None;
            let mut j: usize = 0;
            while j < i
                invariant
                    j <= i < bindings@.len(),
                    e == binding_views(bindings@),
                    found is None ==> first_with_key(e, key@, j as int) is None,
                    found matches Some(f) ==> first_with_key(e, key@, i as int) == Some(f as int)
                        && f < i,
                decreases i - j,
            {
                proof {
                    assert(e[j as int] == (bindings@[j as int].0@, bindings@[j as int].1@));
                }
                if found.is_none() && str_eq(bindings[j].0.as_str(), key) {
                    proof {
                        assert(first_with_key(e, key@, j + 1) == Some(j as int));
                        lemma_first_with_key_stays(e, key@, j + 1, i as int);
                    }
                    found = Some(j);
                }
                j = j + 1;
            }
            match found {
                Some(f) => {
                    let mut msg = String::new();
                    push_str(&mut msg, "快捷键 ");
                    let up = to_uppercase(key);
                    push_str(&mut msg, up.as_str());
                    push_str(&mut msg, " 同时绑定了 ");
                    push_str(&mut msg, bindings[f].1.as_str());
                    push_str(&mut msg, " 与 ");
                    push_str(&mut msg, owner);
                    proof {
                        assert(e[f as int] == (bindings@[f as int].0@, bindings@[f as int].1@));
                        assert(msg@ =~= conflict_message(key@, e[f as int].1, owner@));
                    }
                    let ghost before = out@;
                    out.push(msg);
                    assert(out@.map_values(|s: String| s@) =~= before.map_values(|s: String| s@).push(
                        conflict_message(key@, e[f as int].1, owner@),
                    ));
                },
                None => {},
            }
        }
        assert(conflicts_spec(e, i + 1) == {
            let prev = conflicts_spec(e, i as int);
            if key@.len() == 0 {
                prev
            } else {
                match first_with_key(e, key@, i as int) {
                    Some(j) => prev.push(conflict_message(key@, e[j].1, owner@)),
                    None => prev,
                }
            }
        });
        i = i + 1;
    }
    out
}

/// Position of the first of the first `n` slot bindings whose slot comes
/// after `slot` (`n` if none).
pub open spec fn first_after(s: Seq<(usize, Seq<char>)>, slot: usize, n: int) -> int
    decreases n,
{
    if n <= 0 {
        0
    } else if first_after(s, slot, n - 1) < n - 1 {
        first_after(s, slot, n - 1)
    } else if s[n - 1].0 > slot {
        n - 1
    } else {
        n
    }
}

/// `x` inserted after every binding of a slot not after its own.
pub open spec fn insert_by_slot(s: Seq<(usize, Seq<char>)>, x: (usize, Seq<char>)) -> Seq<
    (usize, Seq<char>),
> {
    let p = first_after(s, x.0, s.len() as int);
    s.take(p).push(x) + s.skip(p)
}

/// The bound slots among the first `n`, in slot order (equal slots keep
/// their order).
pub open spec fn bound_slots(s: Seq<(usize, Seq<char>)>, n: int) -> Seq<(usize, Seq<char>)>
    decreases n,
{
    if n <= 0 {
        Seq::empty()
    } else if is_blank(s[n - 1].1) {
        bound_slots(s, n - 1)
    } else {
        insert_by_slot(bound_slots(s, n - 1), s[n - 1])
    }
}

/// The owner shown for slot `slot` (0-based): `槽位 NN`, numbered from 1.
pub open spec fn slot_owner(slot: usize) -> Seq<char> {
    "槽位 "@ + decimal_02((slot + 1) as nat)
}

proof fn lemma_first_after_bounds(s: Seq<(usize, Seq<char>)>, slot: usize, n: int)
    requires
        0 <= n,
    ensures
        0 <= first_after(s, slot, n) <= n,
    decreases n,
{
    if n > 0 {
        lemma_first_after_bounds(s, slot, n - 1);
    }
}

/// Inserts `x` into `v` as `insert_by_slot` does.
fn insert_slot(v: &mut Vec<(usize, String)>, x: (usize, String))
    ensures
        final(v)@.map_values(|p: (usize, String)| (p.0, p.1@)) == insert_by_slot(
            old(v)@.map_values(|p: (usize, String)| (p.0, p.1@)),
            (x.0, x.1@),
        ),
{
    let ghost sv = old(v)@.map_values(|p: (usize, String)| (p.0, p.1@));
    let mut p: usize = 0;
    while p < v.len() && v[p].0 <= x.0
        invariant
            p <= v@.len(),
            sv == v@.map_values(|q: (usize, String)| (q.0, q.1@)),
            first_after(sv, x.0, p as int) == p,
        decreases v@.len() - p,
    {
        proof {
            assert(sv[p as int].0 == v@[p as int].0);
        }
        p = p + 1;
    }
    proof {
        lemma_first_after_bounds(sv, x.0, v@.len() as int);
        if p < v@.len() {
            assert(sv[p as int].0 == v@[p as int].0);
            assert(first_after(sv, x.0, p + 1) == p);
            lemma_first_after_settles(sv, x.0, p + 1, v@.len() as int);
        }
    }
    let ghost xv = (x.0, x.1@);
    v.insert(p, x);
    assert(v@.map_values(|q: (usize, String)| (q.0, q.1@)) =~= sv.take(p as int).push(xv) + sv.skip(
        p as int,
    ));
}

proof fn lemma_first_after_settles(s: Seq<(usize, Seq<char>)>, slot: usize, m: int, n: int)
    requires
        0 < m <= n,
        first_after(s, slot, m) < m,
    ensures
        first_after(s, slot, n) == first_after(s, slot, m),
    decreases n - m,
{
    if n > m {
        lemma_first_after_settles(s, slot, m, n - 1);
    }
}

/// The slot hotkeys as `(key, owner)` bindings for `hotkey_conflicts`: the
/// slots (0-based) with a non-blank key, in slot order, each owned by
/// `槽位 NN`.
pub fn slot_bindings(slots: &[(usize, String)]) -> (r: Vec<(String, String)>)
    requires
        forall|i: int| 0 <= i < slots@.len() ==> #[trigger] slots@[i].0 < usize::MAX,
    ensures
        binding_views(r@) == bound_slots(
            slots@.map_values(|p: (usize, String)| (p.0, p.1@)),
            slots@.len() as int,
        ).map_values(|p: (usize, Seq<char>)| (p.1, slot_owner(p.0))),
{
    let ghost sv = slots@.map_values(|p: (usize, String)| (p.0, p.1@));
    let mut kept: Vec<(usize, String)> = Vec::new();
    let mut i: usize = 0;
    while i < slots.len()
        invariant
            i <= slots@.len(),
            sv == slots@.map_values(|p: (usize, String)| (p.0, p.1@)),
            kept@.map_values(|p: (usize, String)| (p.0, p.1@)) == bound_slots(sv, i as int),
        decreases slots@.len() - i,
    {
        proof {
            assert(sv[i as int] == (slots@[i as int].0, slots@[i as int].1@));
        }
        if !str_is_blank(slots[i].1.as_str()) {
            insert_slot(&mut kept, (slots[i].0, string_of(slots[i].1.as_str())));
        }
        i = i + 1;
    }
    let ghost kv = kept@.map_values(|p: (usize, String)| (p.0, p.1@));
    let mut out: Vec<(String, String)> = Vec::new();
    let mut k: usize = 0;
    while k < kept.len()
        invariant
            k <= kept@.len(),
            kv == kept@.map_values(|p: (usize, String)| (p.0, p.1@)),
            kv == bound_slots(sv, slots@.len() as int),
            sv.len() == slots@.len(),
            forall|q: int| 0 <= q < sv.len() ==> #[trigger] sv[q].0 < usize::MAX,
            binding_views(out@) == kv.take(k as int).map_values(
                |p: (usize, Seq<char>)| (p.1, slot_owner(p.0)),
            ),
        decreases kept@.len() - k,
    {
        let slot = kept[k].0;
        proof {
            assert(kv[k as int] == (slot, kept@[k as int].1@));
            lemma_bound_slots_from(sv, slots@.len() as int, k as int);
            let q = choose|q: int| 0 <= q < slots@.len() && sv[q] == kv[k as int];
            assert(sv[q].0 < usize::MAX);
        }
        let mut owner = String::new();
        push_str(&mut owner, "槽位 ");
        push_decimal_02(&mut owner, (slot + 1) as u64);
        assert(owner@ =~= slot_owner(slot));
        let ghost ob = out@;
        out.push((string_of(kept[k].1.as_str()), owner));
        assert(binding_views(out@) =~= binding_views(ob).push((kv[k as int].1, slot_owner(slot))));
        assert(kv.take(k + 1).map_values(|p: (usize, Seq<char>)| (p.1, slot_owner(p.0)))
            =~= kv.take(k as int).map_values(|p: (usize, Seq<char>)| (p.1, slot_owner(p.0))).push(
            (kv[k as int].1, slot_owner(kv[k as int].0)),
        ));
        k = k + 1;
    }
    assert(kv.take(kv.len() as int) =~= kv);
    out
}

/// Every binding kept came from the input.
proof fn lemma_bound_slots_from(s: Seq<(usize, Seq<char>)>, n: int, k: int)
    requires
        0 <= n <= s.len(),
        0 <= k < bound_slots(s, n).len(),
    ensures
        exists|q: int| 0 <= q < n && s[q] == bound_slots(s, n)[k],
    decreases n,
{
    if n > 0 && !is_blank(s[n - 1].1) {
        let b = bound_slots(s, n - 1);
        let p = first_after(b, s[n - 1].0, b.len() as int);
        lemma_first_after_bounds(b, s[n - 1].0, b.len() as int);
        let t = b.take(p).push(s[n - 1]) + b.skip(p);
        if k < p {
            assert(t[k] == b[k]);
            lemma_bound_slots_from(s, n - 1, k);
        } else if k == p {
            assert(t[k] == s[n - 1]);
        } else {
            assert(t[k] == b[k - 1]);
            lemma_bound_slots_from(s, n - 1, k - 1);
        }
    } else if n > 0 {
        lemma_bound_slots_from(s, n - 1, k);
    }
}


proof fn lemma_first_with_key_is_first(e: Seq<(Seq<char>, Seq<char>)>, k: Seq<char>, n: int)
    requires
        0 <= n <= e.len(),
    ensures
        first_with_key(e, k, n) is None <==> forall|i: int| 0 <= i < n ==> (#[trigger] e[i]).0 != k,
        first_with_key(e, k, n) matches Some(i) ==> 0 <= i < n && e[i].0 == k && forall|h: int|
            0 <= h < i ==> (#[trigger] e[h]).0 != k,
    decreases n,
{
    if n > 0 {
        lemma_first_with_key_is_first(e, k, n - 1);
    }
}


#[verifier::spinoff_prover]
proof fn lemma_conflicts_sound(e: Seq<(Seq<char>, Seq<char>)>, n: int)
    requires
        0 <= n <= e.len(),
    ensures
        forall|x: Seq<char>|
            #[trigger] conflicts_spec(e, n).contains(x) ==> exists|i: int, j: int|
                #![trigger e[i], e[j]]
                0 <= i < j < n && e[j].0.len() > 0 && e[i].0 == e[j].0 && (forall|h: int|
                    0 <= h < i ==> (#[trigger] e[h]).0 != e[j].0) && x == conflict_message(
                    e[j].0,
                    e[i].1,
                    e[j].1,
                ),
    decreases n,
{
    if n > 0 {
        lemma_conflicts_sound(e, n - 1);
        let prev = conflicts_spec(e, n - 1);
        let k = e[n - 1].0;
        let o = e[n - 1].1;
        lemma_first_with_key_is_first(e, k, n - 1);
        let cur = conflicts_spec(e, n);
        assert forall|x: Seq<char>| #[trigger] cur.contains(x) implies exists|i: int, j: int|
            #![trigger e[i], e[j]]
            0 <= i < j < n && e[j].0.len() > 0 && e[i].0 == e[j].0 && (forall|h: int|
                0 <= h < i ==> (#[trigger] e[h]).0 != e[j].0) && x == conflict_message(
                e[j].0,
                e[i].1,
                e[j].1,
            ) by {
            if prev.contains(x) {
                let (i, j) = choose|i: int, j: int|
                    #![trigger e[i], e[j]]
                    0 <= i < j < n - 1 && e[j].0.len() > 0 && e[i].0 == e[j].0 && (forall|h: int|
                        0 <= h < i ==> (#[trigger] e[h]).0 != e[j].0) && x == conflict_message(
                        e[j].0,
                        e[i].1,
                        e[j].1,
                    );
                assert(0 <= i < j < n);
            } else {
                let t = choose|t: int| 0 <= t < cur.len() && cur[t] == x;
                assert(cur != prev);
                let fi = first_with_key(e, k, n - 1)->0;
                assert(cur == prev.push(conflict_message(k, e[fi].1, o)));
                if t < prev.len() {
                    assert(prev[t] == x);
                    assert(prev.contains(x));
                }
                assert(x == conflict_message(e[n - 1].0, e[fi].1, e[n - 1].1));
                assert(e[fi].0 == e[n - 1].0);
            }
        }
    }
}

proof fn lemma_conflicts_push(e: Seq<(Seq<char>, Seq<char>)>, n: int)
    requires
        0 < n <= e.len(),
    ensures
        forall|x: Seq<char>| conflicts_spec(e, n - 1).contains(x) ==> #[trigger] conflicts_spec(e, n).contains(x),
{
    let prev = conflicts_spec(e, n - 1);
    let cur = conflicts_spec(e, n);
    assert forall|x: Seq<char>| prev.contains(x) implies #[trigger] cur.contains(x) by {
        let t = choose|t: int| 0 <= t < prev.len() && prev[t] == x;
        if cur != prev {
            assert(cur[t] == x);
        }
    }
}

#[verifier::spinoff_prover]
proof fn lemma_conflicts_empty(e: Seq<(Seq<char>, Seq<char>)>, n: int)
    requires
        0 <= n <= e.len(),
    ensures
        conflicts_spec(e, n).len() == 0 <==> forall|i: int, j: int|
            0 <= i < j < n && (#[trigger] e[j]).0.len() > 0 ==> (#[trigger] e[i]).0 != e[j].0,
    decreases n,
{
    if n > 0 {
        lemma_conflicts_empty(e, n - 1);
        let prev = conflicts_spec(e, n - 1);
        let k = e[n - 1].0;
        lemma_first_with_key_is_first(e, k, n - 1);
        let cur = conflicts_spec(e, n);
        if cur.len() == 0 {
            assert(prev.len() == 0);
            assert forall|i: int, j: int|
                0 <= i < j < n && (#[trigger] e[j]).0.len() > 0 implies (#[trigger] e[i]).0 != e[j].0 by {
                if j == n - 1 {
                    assert(first_with_key(e, k, n - 1) is None);
                }
            }
        }
        if forall|i: int, j: int|
            0 <= i < j < n && (#[trigger] e[j]).0.len() > 0 ==> (#[trigger] e[i]).0 != e[j].0 {
            assert forall|i: int, j: int|
                0 <= i < j < n - 1 && (#[trigger] e[j]).0.len() > 0 implies (#[trigger] e[i]).0 != e[j].0 by {
            }
            if k.len() > 0 {
                assert forall|i: int| 0 <= i < n - 1 implies (#[trigger] e[i]).0 != k by {
                    assert(e[n - 1].0.len() > 0);
                }
            }
        }
    }
}

#[verifier::spinoff_prover]
proof fn lemma_conflicts_complete(e: Seq<(Seq<char>, Seq<char>)>, n: int)
    requires
        0 <= n <= e.len(),
    ensures
        forall|i: int, j: int|
            0 <= i < j < n && (#[trigger] e[j]).0.len() > 0 && (#[trigger] e[i]).0 == e[j].0 && (forall|h: int|
                0 <= h < i ==> (#[trigger] e[h]).0 != e[j].0) ==> conflicts_spec(e, n).contains(
                conflict_message(e[j].0, e[i].1, e[j].1),
            ),
    decreases n,
{
    if n > 0 {
        lemma_conflicts_complete(e, n - 1);
        lemma_conflicts_push(e, n);
        let prev = conflicts_spec(e, n - 1);
        let k = e[n - 1].0;
        let o = e[n - 1].1;
        lemma_first_with_key_is_first(e, k, n - 1);
        let cur = conflicts_spec(e, n);
        assert forall|i: int, j: int|
            0 <= i < j < n && (#[trigger] e[j]).0.len() > 0 && (#[trigger] e[i]).0 == e[j].0 && (forall|h: int|
                0 <= h < i ==> (#[trigger] e[h]).0 != e[j].0) implies cur.contains(
            conflict_message(e[j].0, e[i].1, e[j].1),
        ) by {
            if j < n - 1 {
                assert(prev.contains(conflict_message(e[j].0, e[i].1, e[j].1)));
            } else {
                let f = first_with_key(e, k, n - 1);
                assert(e[i].0 == k);
                assert(f is Some);
                let fi = f->0;
                if fi < i {
                    assert(e[fi].0 != k);
                }
                if i < fi {
                    assert(e[i].0 != k);
                }
                assert(cur == prev.push(conflict_message(k, e[i].1, o)));
                assert(cur[prev.len() as int] == conflict_message(k, e[i].1, o));
            }
        }
    }
}

/// Law: among the first `n` bindings there is no conflict exactly when the
/// non-empty keys are pairwise distinct; whenever a binding `j` has a
/// non-empty key that an earlier binding holds (whichever one), the result
/// reports it, naming the first binding `i` that holds that key; and every
/// message reported is such a conflict.
pub proof fn lemma_conflicts_exactly(e: Seq<(Seq<char>, Seq<char>)>, n: int)
    requires
        0 <= n <= e.len(),
    ensures
        conflicts_spec(e, n).len() == 0 <==> forall|i: int, j: int|
            0 <= i < j < n && (#[trigger] e[j]).0.len() > 0 ==> (#[trigger] e[i]).0 != e[j].0,
        forall|i: int, j: int|
            0 <= i < j < n && (#[trigger] e[j]).0.len() > 0 && (#[trigger] e[i]).0 == e[j].0 && (forall|h: int|
                0 <= h < i ==> (#[trigger] e[h]).0 != e[j].0) ==> conflicts_spec(e, n).contains(
                conflict_message(e[j].0, e[i].1, e[j].1),
            ),
        forall|x: Seq<char>|
            #[trigger] conflicts_spec(e, n).contains(x) ==> exists|i: int, j: int|
                #![trigger e[i], e[j]]
                0 <= i < j < n && e[j].0.len() > 0 && e[i].0 == e[j].0 && (forall|h: int|
                    0 <= h < i ==> (#[trigger] e[h]).0 != e[j].0) && x == conflict_message(
                    e[j].0,
                    e[i].1,
                    e[j].1,
                ),
{
    lemma_conflicts_empty(e, n);
    lemma_conflicts_complete(e, n);
    lemma_conflicts_sound(e, n);
}

} // verus!
