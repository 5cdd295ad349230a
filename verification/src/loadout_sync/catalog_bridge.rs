//! The bridge between this application's icon keys and the reference
//! catalog's item ids.
//!
//! Three rules, no guessing: normalise (`-` becomes `_`) and use the hit; else
//! look the id up in an explicit alias table; else there is no answer.
use vstd::prelude::*;
use crate::loadout_sync::reference_vision::ItemKind;
use crate::text::{lemma_seq_lt_order, push_char, replace_char, seq_lt, str_eq, str_less};

verus! {

/// An entry of the reference icon catalog.
#[derive(Debug, Clone, Copy, PartialEq, Eq, Structural)]
pub struct IconEntry {
    pub kind: ItemKind,
}

/// The ids of a list of catalog entries.
pub open spec fn entry_ids(c: Seq<(Seq<char>, IconEntry)>) -> Seq<Seq<char>> {
    c.map_values(|e: (Seq<char>, IconEntry)| e.0)
}

/// The catalog holds `id`.
pub open spec fn catalog_has(c: Seq<(Seq<char>, IconEntry)>, id: Seq<char>) -> bool {
    exists|i: int| 0 <= i < c.len() && #[trigger] c[i].0 == id
}

/// No id occurs twice.
pub open spec fn ids_distinct(c: Seq<(Seq<char>, IconEntry)>) -> bool {
    forall|i: int, j: int| 0 <= i < j < c.len() ==> #[trigger] c[i].0 != #[trigger] c[j].0
}

/// Views of pairs of an id and an entry.
pub open spec fn pair_views(v: Seq<(String, IconEntry)>) -> Seq<(Seq<char>, IconEntry)> {
    v.map_values(|p: (String, IconEntry)| (p.0@, p.1))
}

/// Views of pairs of a borrowed id and an entry.
pub open spec fn ref_pair_views(v: Seq<(&str, IconEntry)>) -> Seq<(Seq<char>, IconEntry)> {
    v.map_values(|p: (&str, IconEntry)| (p.0@, p.1))
}

/// The reference icon catalog: item ids, each once, with their entries.
pub struct IconCatalog {
    entries: Vec<(String, IconEntry)>,
}

impl IconCatalog {
    /// The entries, each id once (their order carries no meaning).
    pub closed spec fn entries_view(&self) -> Seq<(Seq<char>, IconEntry)> {
        pair_views(self.entries@)
    }

    #[verifier::type_invariant]
    spec fn ids_unique(&self) -> bool {
        ids_distinct(pair_views(self.entries@))
    }

    /// An empty catalog.
    pub fn new() -> (r: Self)
        ensures
            r.entries_view().len() == 0,
    {
        IconCatalog { entries: Vec::new() }
    }

    /// Number of entries.
    pub fn len(&self) -> (r: usize)
        ensures
            r == self.entries_view().len(),
    {
        self.entries.len()
    }

    /// Index of `item_id`, if held.
    fn index_of(&self, item_id: &str) -> (r: Option<usize>)
        ensures
            match r {
                Some(i) => i < self.entries_view().len() && self.entries_view()[i as int].0
                    == item_id@,
                None => !catalog_has(self.entries_view(), item_id@),
            },
    {
        let mut i: usize = 0;
        while i < self.entries.len()
            invariant
                i <= self.entries@.len(),
                forall|k: int| 0 <= k < i ==> self.entries@[k].0@ != item_id@,
            decreases self.entries@.len() - i,
        {
            if str_eq(self.entries[i].0.as_str(), item_id) {
                return Some(i);
            }
            i = i + 1;
        }
        assert forall|k: int| 0 <= k < self.entries_view().len() implies #[trigger] self.entries_view()[k].0 != item_id@ by {
            assert(self.entries_view()[k].0 == self.entries@[k].0@);
        }
        None
    }

    /// Records `item_id` with `kind`, replacing an earlier entry of that id.
    pub fn insert(&mut self, item_id: String, kind: ItemKind)
        ensures
            ids_distinct(final(self).entries_view()),
            catalog_has(final(self).entries_view(), item_id@),
            forall|k: int|
                0 <= k < final(self).entries_view().len() && #[trigger] final(self).entries_view()[k].0 == item_id@ ==> final(self).entries_view()[k].1
                    == (IconEntry { kind }),
            forall|id: Seq<char>|
                id != item_id@ ==> (#[trigger] catalog_has(final(self).entries_view(), id)
                    <==> catalog_has(old(self).entries_view(), id)),
            forall|k: int|
                0 <= k < old(self).entries_view().len() && #[trigger] old(self).entries_view()[k].0 != item_id@ ==> final(self).entries_view().contains(
                    old(self).entries_view()[k],
                ),
            forall|k: int|
                0 <= k < final(self).entries_view().len() && #[trigger] final(self).entries_view()[k].0 != item_id@ ==> old(self).entries_view().contains(
                    final(self).entries_view()[k],
                ),
    {
        proof {
            use_type_invariant(&*self);
        }
        let ghost old_view = self.entries_view();
        let entry = IconEntry { kind };
        match self.index_of(item_id.as_str()) {
            Some(i) => {
                let ghost id = item_id@;
                let mut entries = Vec::new();
                std::mem::swap(&mut entries, &mut self.entries);
                entries.set(i, (item_id, entry));
                proof {
                    let nv = pair_views(entries@);
                    assert(nv =~= old_view.update(i as int, (id, entry)));
                    assert forall|a: int, b: int| 0 <= a < b < nv.len() implies #[trigger] nv[a].0
                        != #[trigger] nv[b].0 by {
                        assert(old_view[a].0 != old_view[b].0);
                    }
                    assert(nv[i as int].0 == id);
                    assert forall|q: Seq<char>| q != id implies (#[trigger] catalog_has(nv, q)
                        <==> catalog_has(old_view, q)) by {
                        if catalog_has(nv, q) {
                            let k = choose|k: int| 0 <= k < nv.len() && nv[k].0 == q;
                            assert(old_view[k].0 == q);
                        }
                        if catalog_has(old_view, q) {
                            let k = choose|k: int| 0 <= k < old_view.len() && old_view[k].0 == q;
                            assert(nv[k].0 == q);
                        }
                    }
                    assert forall|k: int|
                        0 <= k < old_view.len() && #[trigger] old_view[k].0 != id implies nv.contains(
                        old_view[k],
                    ) by {
                        assert(nv[k] == old_view[k]);
                    }
                    assert forall|k: int|
                        0 <= k < nv.len() && #[trigger] nv[k].0 != id implies old_view.contains(
                        nv[k],
                    ) by {
                        assert(nv[k] == old_view[k]);
                    }
                    assert forall|k: int|
                        0 <= k < nv.len() && #[trigger] nv[k].0 == id implies nv[k].1 == entry by {
                        if k != i {
                            assert(old_view[k].0 == old_view[i as int].0);
                        }
                    }
                }
                self.entries = entries;
            },
            None => {
                let ghost id = item_id@;
                let mut entries = Vec::new();
                std::mem::swap(&mut entries, &mut self.entries);
                entries.push((item_id, entry));
                proof {
                    let nv = pair_views(entries@);
                    assert(nv =~= old_view.push((id, entry)));
                    assert forall|a: int, b: int| 0 <= a < b < nv.len() implies #[trigger] nv[a].0
                        != #[trigger] nv[b].0 by {
                        if b == nv.len() - 1 {
                            assert(old_view[a].0 != id);
                        }
                    }
                    assert(nv[nv.len() - 1].0 == id);
                    assert forall|q: Seq<char>| q != id implies (#[trigger] catalog_has(nv, q)
                        <==> catalog_has(old_view, q)) by {
                        if catalog_has(nv, q) {
                            let k = choose|k: int| 0 <= k < nv.len() && nv[k].0 == q;
                            assert(old_view[k].0 == q);
                        }
                        if catalog_has(old_view, q) {
                            let k = choose|k: int| 0 <= k < old_view.len() && old_view[k].0 == q;
                            assert(nv[k].0 == q);
                        }
                    }
                    assert forall|k: int|
                        0 <= k < old_view.len() && #[trigger] old_view[k].0 != id implies nv.contains(
                        old_view[k],
                    ) by {
                        assert(nv[k] == old_view[k]);
                    }
                    assert forall|k: int|
                        0 <= k < nv.len() && #[trigger] nv[k].0 != id implies old_view.contains(
                        nv[k],
                    ) by {
                        assert(nv[k] == old_view[k]);
                    }
                }
                self.entries = entries;
            },
        }
    }

    /// The entry of `item_id`, if held.
    pub fn get(&self, item_id: &str) -> (r: Option<IconEntry>)
        ensures
            r is Some <==> catalog_has(self.entries_view(), item_id@),
            r matches Some(e) ==> self.entries_view().contains((item_id@, e)),
    {
        match self.index_of(item_id) {
            Some(i) => {
                let e = self.entries[i].1;
                assert(self.entries_view()[i as int] == (item_id@, e));
                Some(e)
            },
            None => None,
        }
    }
}

/// `item_id` with every `-` turned into `_`: the guessed icon key.
pub open spec fn normalized_key(item_id: Seq<char>) -> Seq<char> {
    replace_char(item_id, '-', '_')
}

/// The icon key guessed from an item id (`-` becomes `_`). Only a guess:
/// `resolve_current_key` gives the reliable mapping.
pub fn normalized_current_key(item_id: &str) -> (r: String)
    ensures
        r@ == normalized_key(item_id@),
{
    let n = item_id.unicode_len();
    let mut s = String::new();
    let mut i: usize = 0;
    while i < n
        invariant
            n == item_id@.len(),
            i <= n,
            s@ == normalized_key(item_id@.take(i as int)),
        decreases n - i,
    {
        let c = item_id.get_char(i);
        if c == '-' {
            push_char(&mut s, '_');
        } else {
            push_char(&mut s, c);
        }
        assert(normalized_key(item_id@.take(i + 1)) =~= normalized_key(item_id@.take(i as int)).push(
            if c == '-' {
                '_'
            } else {
                c
            },
        ));
        i = i + 1;
    }
    assert(item_id@.take(n as int) =~= item_id@);
    s
}

/// Strictly increasing ids (so each id once).
pub open spec fn ids_sorted(v: Seq<(Seq<char>, IconEntry)>) -> bool {
    forall|i: int, j: int| 0 <= i < j < v.len() ==> seq_lt(#[trigger] v[i].0, #[trigger] v[j].0)
}

/// Inserts a pair with a new id at its place in an id-sorted list.
fn insert_by_id<'a>(v: &mut Vec<(&'a str, IconEntry)>, p: (&'a str, IconEntry))
    requires
        ids_sorted(ref_pair_views(old(v)@)),
        forall|k: int| 0 <= k < old(v)@.len() ==> #[trigger] old(v)@[k].0@ != p.0@,
    ensures
        ids_sorted(ref_pair_views(final(v)@)),
        forall|q: (Seq<char>, IconEntry)|
            #[trigger] ref_pair_views(final(v)@).contains(q) <==> (ref_pair_views(
                old(v)@,
            ).contains(q) || q == (p.0@, p.1)),
{
    let ghost s = ref_pair_views(v@);
    let ghost pv = (p.0@, p.1);
    let mut i: usize = 0;
    let mut go = true;
    while go && i < v.len()
        invariant
            ref_pair_views(v@) == s,
            pv == (p.0@, p.1),
            s.len() == v@.len(),
            i <= s.len(),
            forall|k: int| 0 <= k < i ==> seq_lt(#[trigger] s[k].0, pv.0),
            !go ==> i < s.len() && !seq_lt(s[i as int].0, pv.0),
        decreases s.len() - i + if go {
            1int
        } else {
            0int
        },
    {
        assert(s[i as int].0 == v@[i as int].0@);
        if str_less(v[i].0, p.0) {
            i = i + 1;
        } else {
            go = false;
        }
    }
    proof {
        if i < s.len() {
            assert(s[i as int].0 == old(v)@[i as int].0@);
            lemma_seq_lt_order(s[i as int].0, pv.0, pv.0);
            assert(seq_lt(pv.0, s[i as int].0));
            assert forall|k: int| i <= k < s.len() implies seq_lt(pv.0, #[trigger] s[k].0) by {
                if k > i {
                    lemma_seq_lt_order(pv.0, s[i as int].0, s[k].0);
                }
            }
        }
    }
    v.insert(i, p);
    proof {
        let t = ref_pair_views(v@);
        assert(t =~= s.insert(i as int, pv));
        assert forall|a: int, b: int| 0 <= a < b < t.len() implies seq_lt(
            #[trigger] t[a].0,
            #[trigger] t[b].0,
        ) by {
            if a < i && b < i {
            } else if a < i && b == i {
            } else if a < i {
                assert(t[b] == s[b - 1]);
            } else if a == i {
                assert(t[b] == s[b - 1]);
            } else {
                assert(t[a] == s[a - 1]);
                assert(t[b] == s[b - 1]);
            }
        }
        assert forall|q: (Seq<char>, IconEntry)| #[trigger] t.contains(q) <==> (s.contains(q) || q
            == pv) by {
            if t.contains(q) {
                let k = choose|k: int| 0 <= k < t.len() && t[k] == q;
                if k < i {
                    assert(s[k] == q);
                } else if k > i {
                    assert(s[k - 1] == q);
                }
            }
            if s.contains(q) {
                let k = choose|k: int| 0 <= k < s.len() && s[k] == q;
                if k < i {
                    assert(t[k] == q);
                } else {
                    assert(t[k + 1] == q);
                }
            }
            if q == pv {
                assert(t[i as int] == q);
            }
        }
    }
}

/// The catalog's entries of one kind, sorted by item id (ascending), so
/// that callers see a stable order whatever order the catalog holds.
pub fn entries_of_kind<'a>(catalog: &'a IconCatalog, kind: ItemKind) -> (r: Vec<(&'a str, IconEntry)>)
    ensures
        ids_sorted(ref_pair_views(r@)),
        forall|q: (Seq<char>, IconEntry)|
            #[trigger] ref_pair_views(r@).contains(q) <==> (catalog.entries_view().contains(q)
                && q.1.kind == kind),
{
    proof {
        use_type_invariant(catalog);
    }
    let ghost c = catalog.entries_view();
    let mut out: Vec<(&'a str, IconEntry)> = Vec::new();
    let mut i: usize = 0;
    while i < catalog.entries.len()
        invariant
            c == catalog.entries_view(),
            c.len() == catalog.entries@.len(),
            ids_distinct(c),
            i <= c.len(),
            ids_sorted(ref_pair_views(out@)),
            forall|q: (Seq<char>, IconEntry)|
                #[trigger] ref_pair_views(out@).contains(q) <==> (c.take(i as int).contains(q)
                    && q.1.kind == kind),
        decreases c.len() - i,
    {
        let e = catalog.entries[i].1;
        let ghost ci = c[i as int];
        assert(ci == (catalog.entries@[i as int].0@, e));
        if e.kind == kind {
            proof {
                assert forall|k: int| 0 <= k < out@.len() implies #[trigger] out@[k].0@ != ci.0 by {
                    let q = ref_pair_views(out@)[k];
                    assert(q == (out@[k].0@, out@[k].1));
                    assert(ref_pair_views(out@).contains(q));
                    let j = choose|j: int| 0 <= j < i && #[trigger] c.take(i as int)[j] == q;
                    assert(c[j] == q);
                }
            }
            insert_by_id(&mut out, (catalog.entries[i].0.as_str(), e));
        }
        proof {
            assert(c.take(i + 1) =~= c.take(i as int).push(ci));
            assert forall|q: (Seq<char>, IconEntry)| #[trigger] c.take(i + 1).contains(q) <==> (
            c.take(i as int).contains(q) || q == ci) by {
                if c.take(i + 1).contains(q) {
                    let k = choose|k: int| 0 <= k < i + 1 && #[trigger] c.take(i + 1)[k] == q;
                    if k < i {
                        assert(c.take(i as int)[k] == q);
                    }
                }
                if c.take(i as int).contains(q) {
                    let k = choose|k: int| 0 <= k < i && #[trigger] c.take(i as int)[k] == q;
                    assert(c.take(i + 1)[k] == q);
                }
                if q == ci {
                    assert(c.take(i + 1)[i as int] == q);
                }
            }
        }
        i = i + 1;
    }
    assert(c.take(c.len() as int) =~= c);
    out
}

/// The explicit alias table: reference item id, then this application's
/// icon key. Only entries the normalisation misses are listed; the last
/// three name mission stratagems the reference catalog does not hold, kept
/// so that the miss reads as intended.
pub open spec fn aliases_spec() -> Seq<(Seq<char>, Seq<char>)> {
    seq![
        ("meltagun"@, "40_k_meltagun"@),
        ("breaching-hammer"@, "cqc_20"@),
        ("portable-hellbomb"@, "hellbomb_portable"@),
        ("de-escalator"@, "gl_52_de_escalator"@),
        ("belt-fed-grenade-launcher"@, "gl_28"@),
        ("wasp-launcher"@, "sta_x3_w_a_s_p_launcher"@),
        ("one-true-flag"@, "one_true_flag"@),
        ("k-9"@, "guard_dog_k_9"@),
        ("dog-breath"@, "guard_dog_breath"@),
        ("hot-dog"@, "guard_dog_hot_dog"@),
        ("rover"@, "guard_dog_rover"@),
        ("guard-dog"@, "guard_dog"@),
        ("leveller"@, "eat_411"@),
        ("gas-mines"@, "gas_mine"@),
        ("hellbomb"@, "hellbomb"@),
        ("solo-silo"@, "solo_silo"@),
        ("seaf-artillery"@, "seaf_artillery"@),
    ]
}

/// Views of the alias pairs.
pub open spec fn alias_views(v: Seq<(&str, &str)>) -> Seq<(Seq<char>, Seq<char>)> {
    v.map_values(|p: (&str, &str)| (p.0@, p.1@))
}

/// The explicit alias table (reference item id, icon key).
pub fn reference_id_aliases() -> (r: Vec<(&'static str, &'static str)>)
    ensures
        alias_views(r@) == aliases_spec(),
{
    let r = vec![
        ("meltagun", "40_k_meltagun"),
        ("breaching-hammer", "cqc_20"),
        ("portable-hellbomb", "hellbomb_portable"),
        ("de-escalator", "gl_52_de_escalator"),
        ("belt-fed-grenade-launcher", "gl_28"),
        ("wasp-launcher", "sta_x3_w_a_s_p_launcher"),
        ("one-true-flag", "one_true_flag"),
        ("k-9", "guard_dog_k_9"),
        ("dog-breath", "guard_dog_breath"),
        ("hot-dog", "guard_dog_hot_dog"),
        ("rover", "guard_dog_rover"),
        ("guard-dog", "guard_dog"),
        ("leveller", "eat_411"),
        ("gas-mines", "gas_mine"),
        ("hellbomb", "hellbomb"),
        ("solo-silo", "solo_silo"),
        ("seaf-artillery", "seaf_artillery"),
    ];
    assert(alias_views(r@) =~= aliases_spec());
    r
}

/// The icon key the first alias of reference id `id` names.
pub open spec fn alias_key_of(aliases: Seq<(Seq<char>, Seq<char>)>, id: Seq<char>) -> Option<
    Seq<char>,
>
    decreases aliases.len(),
{
    if aliases.len() == 0 {
        None
    } else if aliases[0].0 == id {
        Some(aliases[0].1)
    } else {
        alias_key_of(aliases.drop_first(), id)
    }
}

/// The reference id of the first alias naming icon key `key`.
pub open spec fn alias_id_of(aliases: Seq<(Seq<char>, Seq<char>)>, key: Seq<char>) -> Option<
    Seq<char>,
>
    decreases aliases.len(),
{
    if aliases.len() == 0 {
        None
    } else if aliases[0].1 == key {
        Some(aliases[0].0)
    } else {
        alias_id_of(aliases.drop_first(), key)
    }
}

/// Views of a list of borrowed texts.
pub open spec fn str_views(v: Seq<&str>) -> Seq<Seq<char>> {
    v.map_values(|s: &str| s@)
}

/// Reference id → icon key: the normalised id if it is a known key, else
/// the key of the id's alias if that is a known key; nothing for an id the
/// catalog lacks.
pub open spec fn resolve_current_key_spec(
    catalog: Seq<(Seq<char>, IconEntry)>,
    item_id: Seq<char>,
    keys: Seq<Seq<char>>,
) -> Option<Seq<char>> {
    if !catalog_has(catalog, item_id) {
        None
    } else if keys.contains(normalized_key(item_id)) {
        Some(normalized_key(item_id))
    } else {
        match alias_key_of(aliases_spec(), item_id) {
            Some(k) => if keys.contains(k) {
                Some(k)
            } else {
                None
            },
            None => None,
        }
    }
}

/// First of `keys` equal to `x`.
fn find_key<'a>(keys: &'a [&'a str], x: &str) -> (r: Option<&'a str>)
    ensures
        match r {
            Some(k) => k@ == x@ && str_views(keys@).contains(x@),
            None => !str_views(keys@).contains(x@),
        },
{
    let mut i: usize = 0;
    while i < keys.len()
        invariant
            i <= keys@.len(),
            forall|k: int| 0 <= k < i ==> keys@[k]@ != x@,
        decreases keys@.len() - i,
    {
        if str_eq(keys[i], x) {
            assert(str_views(keys@)[i as int] == x@);
            return Some(keys[i]);
        }
        i = i + 1;
    }
    assert forall|k: int| 0 <= k < str_views(keys@).len() implies str_views(keys@)[k] != x@ by {
        assert(str_views(keys@)[k] == keys@[k]@);
    }
    None
}

/// Reference item id → this application's icon key (normalise, then the
/// alias table; no guess).
pub fn resolve_current_key<'a>(catalog: &IconCatalog, item_id: &str, current_keys: &'a [&'a str]) -> (r: Option<&'a str>)
    ensures
        match r {
            Some(k) => resolve_current_key_spec(
                catalog.entries_view(),
                item_id@,
                str_views(current_keys@),
            ) == Some(k@),
            None => resolve_current_key_spec(
                catalog.entries_view(),
                item_id@,
                str_views(current_keys@),
            ) is None,
        },
{
    if catalog.get(item_id).is_none() {
        return None;
    }
    let candidate = normalized_current_key(item_id);
    match find_key(current_keys, candidate.as_str()) {
        Some(hit) => {
            return Some(hit);
        },
        None => {},
    }
    let aliases = reference_id_aliases();
    let ghost av = alias_views(aliases@);
    assert(av.skip(0) =~= av);
    let mut i: usize = 0;
    while i < aliases.len()
        invariant
            i <= aliases@.len(),
            av == alias_views(aliases@),
            av == aliases_spec(),
            alias_key_of(aliases_spec(), item_id@) == alias_key_of(av.skip(i as int), item_id@),
            catalog_has(catalog.entries_view(), item_id@),
            !str_views(current_keys@).contains(normalized_key(item_id@)),
        decreases aliases@.len() - i,
    {
        let (reference, current) = aliases[i];
        proof {
            assert(av.skip(i as int)[0] == (reference@, current@));
            assert(av.skip(i as int).drop_first() =~= av.skip(i + 1));
        }
        if str_eq(reference, item_id) {
            return find_key(current_keys, current);
        }
        i = i + 1;
    }
    None
}

/// The catalog holds `id` and it normalises to `key`.
pub open spec fn id_matches_key(
    catalog: Seq<(Seq<char>, IconEntry)>,
    id: Seq<char>,
    key: Seq<char>,
) -> bool {
    catalog_has(catalog, id) && normalized_key(id) == key
}

/// Icon key → reference item id (the reverse of `resolve_current_key`): the
/// smallest held id that normalises to the key, else the alias of the key
/// if the catalog holds it.
pub open spec fn resolve_item_id_spec(catalog: Seq<(Seq<char>, IconEntry)>, key: Seq<char>) -> Option<
    Seq<char>,
> {
    if exists|id: Seq<char>| #[trigger] id_matches_key(catalog, id, key) {
        Some(
            choose|id: Seq<char>|
                #[trigger] id_matches_key(catalog, id, key) && forall|other: Seq<char>|
                    #[trigger] id_matches_key(catalog, other, key) ==> !seq_lt(other, id),
        )
    } else {
        match alias_id_of(aliases_spec(), key) {
            Some(id) => if catalog_has(catalog, id) {
                Some(id)
            } else {
                None
            },
            None => None,
        }
    }
}

/// Icon key → reference item id: the smallest matching id when several
/// normalise to the same key, so the answer is stable.
pub fn resolve_item_id<'a>(catalog: &'a IconCatalog, current_key: &str) -> (r: Option<&'a str>)
    ensures
        match r {
            Some(id) => resolve_item_id_spec(catalog.entries_view(), current_key@) == Some(id@),
            None => resolve_item_id_spec(catalog.entries_view(), current_key@) is None,
        },
{
    let ghost c = catalog.entries_view();
    let ghost key = current_key@;
    let mut best: Option<usize> = None;
    let mut i: usize = 0;
    while i < catalog.entries.len()
        invariant
            c == catalog.entries_view(),
            c.len() == catalog.entries@.len(),
            key == current_key@,
            i <= c.len(),
            match best {
                Some(b) => b < i && normalized_key(c[b as int].0) == key && forall|k: int|
                    0 <= k < i && normalized_key(#[trigger] c[k].0) == key ==> !seq_lt(
                        c[k].0,
                        c[b as int].0,
                    ),
                None => forall|k: int| 0 <= k < i ==> normalized_key(#[trigger] c[k].0) != key,
            },
        decreases c.len() - i,
    {
        let norm = normalized_current_key(catalog.entries[i].0.as_str());
        assert(c[i as int].0 == catalog.entries@[i as int].0@);
        if str_eq(norm.as_str(), current_key) {
            match best {
                Some(b) => {
                    assert(c[b as int].0 == catalog.entries@[b as int].0@);
                    if str_less(catalog.entries[i].0.as_str(), catalog.entries[b].0.as_str()) {
                        proof {
                            assert forall|k: int|
                                0 <= k < i + 1 && normalized_key(#[trigger] c[k].0) == key implies !seq_lt(
                                c[k].0,
                                c[i as int].0,
                            ) by {
                                lemma_seq_lt_order(c[k].0, c[i as int].0, c[b as int].0);
                                lemma_seq_lt_order(c[i as int].0, c[b as int].0, c[k].0);
                                lemma_seq_lt_order(c[k].0, c[k].0, c[k].0);
                            }
                        }
                        best = Some(i);
                    } else {
                        proof {
                            lemma_seq_lt_order(c[i as int].0, c[b as int].0, c[b as int].0);
                        }
                    }
                },
                None => {
                    proof {
                        lemma_seq_lt_order(c[i as int].0, c[i as int].0, c[i as int].0);
                    }
                    best = Some(i);
                },
            }
        }
        i = i + 1;
    }
    match best {
        Some(b) => {
            let id = catalog.entries[b].0.as_str();
            proof {
                let x = c[b as int].0;
                assert(x == id@);
                assert(id_matches_key(c, x, key));
                assert forall|other: Seq<char>| #[trigger] id_matches_key(c, other, key) implies !seq_lt(
                    other,
                    x,
                ) by {
                    let k = choose|k: int| 0 <= k < c.len() && c[k].0 == other;
                }
                let y = choose|id: Seq<char>|
                    #[trigger] id_matches_key(c, id, key) && forall|other: Seq<char>|
                        #[trigger] id_matches_key(c, other, key) ==> !seq_lt(other, id);
                assert(id_matches_key(c, y, key));
                lemma_seq_lt_order(x, y, x);
                assert(!seq_lt(y, x));
                assert(!seq_lt(x, y));
                assert(x == y);
            }
            Some(id)
        },
        None => {
            proof {
                assert forall|id: Seq<char>| !#[trigger] id_matches_key(c, id, key) by {
                    if catalog_has(c, id) {
                        let k = choose|k: int| 0 <= k < c.len() && c[k].0 == id;
                    }
                }
            }
            let aliases = reference_id_aliases();
            let ghost av = alias_views(aliases@);
            assert(av.skip(0) =~= av);
            let mut j: usize = 0;
            while j < aliases.len()
                invariant
                    j <= aliases@.len(),
                    av == alias_views(aliases@),
                    av == aliases_spec(),
                    alias_id_of(aliases_spec(), key) == alias_id_of(av.skip(j as int), key),
                    key == current_key@,
                    c == catalog.entries_view(),
                    forall|id: Seq<char>| !#[trigger] id_matches_key(c, id, key),
                decreases aliases@.len() - j,
            {
                let (reference, current) = aliases[j];
                proof {
                    assert(av.skip(j as int)[0] == (reference@, current@));
                    assert(av.skip(j as int).drop_first() =~= av.skip(j + 1));
                }
                if str_eq(current, current_key) {
                    if catalog.get(reference).is_some() {
                        return Some(reference);
                    } else {
                        return None;
                    }
                }
                j = j + 1;
            }
            None
        },
    }
}

} // verus!
