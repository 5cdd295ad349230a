//! Loadout Sync selection model: H2AC slots 06..10 mapped onto the game's
//! loadout.
//!
//! Slot 06..09 (index 5..8) are the game's stratagem slots 1..4 and slot 10
//! (index 9) is the booster slot. No left shift, no sorting, no guessing.
use vstd::prelude::*;
use std::collections::HashMap;
use crate::catalog::{BuiltinStratagem, PluginStratagem, PluginView, PLUGIN_SLOT_MARK};
use crate::loadout_sync::error::LoadoutSyncError;
use crate::text::{decimal, is_blank, push_decimal, push_str, str_is_blank};

verus! {

broadcast use vstd::std_specs::hash::group_hash_axioms;

/// Number of stratagem slots in the game (fixed at 4).
pub const GAME_STRATAGEM_SLOTS: usize = 4;
/// First H2AC loadout slot: index of slot 06.
pub const LOADOUT_FIRST_SLOT: usize = 5;
/// The H2AC booster slot: index of slot 10.
pub const BOOSTER_SLOT: usize = 9;

/// One loadout target, identified like the rest of H2AC (built-in index or
/// plugin name).
#[derive(Debug, PartialEq, Eq)]
pub struct LoadoutItem {
    pub name: String,
    /// Icon key (assets/icons/{icon}.png), the visual template source.
    pub icon: String,
    /// Index in the built-in catalog; `None` for plugin stratagems.
    pub base_index: Option<usize>,
}

/// Plain view of a loadout item.
pub struct LoadoutItemView {
    pub name: Seq<char>,
    pub icon: Seq<char>,
    pub base_index: Option<usize>,
}

impl View for LoadoutItem {
    type V = LoadoutItemView;

    open spec fn view(&self) -> LoadoutItemView {
        LoadoutItemView { name: self.name@, icon: self.icon@, base_index: self.base_index }
    }
}

/// The item of built-in entry `index`, if the catalog has one.
pub open spec fn base_item(catalog: Seq<BuiltinStratagem>, index: usize) -> Option<LoadoutItemView> {
    if index < catalog.len() {
        Some(
            LoadoutItemView {
                name: catalog[index as int].name@,
                icon: catalog[index as int].icon@,
                base_index: Some(index),
            },
        )
    } else {
        None
    }
}

/// The item of a plugin stratagem.
pub open spec fn plugin_item(p: PluginView) -> LoadoutItemView {
    LoadoutItemView { name: p.name, icon: p.icon, base_index: None }
}

/// Identity key of an item (duplicate detection; a plugin and a built-in entry
/// of the same name are different items).
pub open spec fn item_key(item: LoadoutItemView) -> Seq<char> {
    match item.base_index {
        Some(i) => "base:"@ + decimal(i as nat),
        None => "plugin:"@ + item.name,
    }
}

/// Views of an optional item.
pub open spec fn opt_item_view(o: Option<LoadoutItem>) -> Option<LoadoutItemView> {
    match o {
        Some(i) => Some(i@),
        None => None,
    }
}

/// What H2AC slot `index` designates: empty, out of range and unknown values
/// are "not configured"; the plugin mark reads the plugin map.
pub open spec fn slot_item(
    catalog: Seq<BuiltinStratagem>,
    slots: Seq<Option<usize>>,
    plugins: Map<usize, PluginStratagem>,
    index: usize,
) -> Option<LoadoutItemView> {
    if index < slots.len() && slots[index as int] is Some {
        let raw = slots[index as int]->0;
        if raw == PLUGIN_SLOT_MARK {
            if plugins.contains_key(index) {
                Some(plugin_item(plugins[index]@))
            } else {
                None
            }
        } else {
            base_item(catalog, raw)
        }
    } else {
        None
    }
}

impl LoadoutItem {
    /// A field-by-field copy.
    pub fn duplicate(&self) -> (r: LoadoutItem)
        ensures
            r@ == self@,
    {
        LoadoutItem { name: self.name.clone(), icon: self.icon.clone(), base_index: self.base_index }
    }

    /// The item of built-in entry `index` (`None` when out of range).
    pub fn base(catalog: &[BuiltinStratagem], index: usize) -> (r: Option<LoadoutItem>)
        ensures
            opt_item_view(r) == base_item(catalog@, index),
    {
        if index < catalog.len() {
            let s = &catalog[index];
            Some(LoadoutItem { name: s.name.clone(), icon: s.icon.clone(), base_index: Some(index) })
        } else {
            None
        }
    }

    /// The item of a plugin stratagem.
    pub fn plugin(p: &PluginStratagem) -> (r: LoadoutItem)
        ensures
            r@ == plugin_item(p@),
    {
        LoadoutItem { name: p.name.clone(), icon: p.icon.clone(), base_index: None }
    }

    /// Identity key: `base:{index}` or `plugin:{name}`.
    pub fn key(&self) -> (r: String)
        ensures
            r@ == item_key(self@),
    {
        let mut s = String::new();
        match self.base_index {
            Some(i) => {
                push_str(&mut s, "base:");
                push_decimal(&mut s, i as u64);
            },
            None => {
                push_str(&mut s, "plugin:");
                push_str(&mut s, self.name.as_str());
            },
        }
        assert(s@ =~= item_key(self@));
        s
    }
}

/// Copies an optional item.
pub fn duplicate_opt(o: &Option<LoadoutItem>) -> (r: Option<LoadoutItem>)
    ensures
        opt_item_view(r) == opt_item_view(*o),
{
    match o {
        Some(i) => Some(i.duplicate()),
        None => None,
    }
}

/// The four stratagems (S1..S4) and the optional booster.
#[derive(Debug, PartialEq, Eq)]
pub struct LoadoutSyncSelection {
    pub stratagems: [Option<LoadoutItem>; GAME_STRATAGEM_SLOTS],
    /// Optional booster: when empty the booster stage is skipped.
    pub booster: Option<LoadoutItem>,
}

/// Plain view of a selection.
pub struct SelectionView {
    pub stratagems: Seq<Option<LoadoutItemView>>,
    pub booster: Option<LoadoutItemView>,
}

impl View for LoadoutSyncSelection {
    type V = SelectionView;

    open spec fn view(&self) -> SelectionView {
        SelectionView {
            stratagems: self.stratagems@.map_values(|o: Option<LoadoutItem>| opt_item_view(o)),
            booster: opt_item_view(self.booster),
        }
    }
}

/// The first unconfigured stratagem slot, if any.
pub open spec fn first_missing(s: Seq<Option<LoadoutItemView>>) -> Option<int> {
    if s[0] is None {
        Some(0)
    } else if s[1] is None {
        Some(1)
    } else if s[2] is None {
        Some(2)
    } else if s[3] is None {
        Some(3)
    } else {
        None
    }
}

/// Items `i` and `j` have the same identity.
pub open spec fn same_key(s: Seq<Option<LoadoutItemView>>, i: int, j: int) -> bool {
    item_key(s[i]->0) == item_key(s[j]->0)
}

/// The first duplicate pair in (i, j) order, if any.
pub open spec fn first_duplicate(s: Seq<Option<LoadoutItemView>>) -> Option<(int, int)> {
    if same_key(s, 0, 1) {
        Some((0, 1))
    } else if same_key(s, 0, 2) {
        Some((0, 2))
    } else if same_key(s, 0, 3) {
        Some((0, 3))
    } else if same_key(s, 1, 2) {
        Some((1, 2))
    } else if same_key(s, 1, 3) {
        Some((1, 3))
    } else if same_key(s, 2, 3) {
        Some((2, 3))
    } else {
        None
    }
}

/// Message for an unconfigured slot `i` (0-based).
pub open spec fn missing_detail(i: int) -> Seq<char> {
    "Loadout Stratagem Slot "@ + decimal((i + 1) as nat) + " 未配置。"@
}

/// Message for a duplicate pair.
pub open spec fn duplicate_detail(a: Seq<char>, b: Seq<char>) -> Seq<char> {
    "存在重复 Stratagem（"@ + a + " 与 "@ + b + "），无法创建有效 Loadout。"@
}

/// Message for a booster without icon.
pub open spec fn booster_icon_detail() -> Seq<char> {
    "Booster 缺少图标资源，无法进行视觉匹配。"@
}

/// What `validate` answers: `None` for a valid selection, else the detail of the
/// first failed rule (missing slot, then duplicate, then booster icon).
pub open spec fn validation_detail(v: SelectionView) -> Option<Seq<char>> {
    match first_missing(v.stratagems) {
        Some(i) => Some(missing_detail(i)),
        None => match first_duplicate(v.stratagems) {
            Some((i, j)) => Some(
                duplicate_detail(v.stratagems[i]->0.name, v.stratagems[j]->0.name),
            ),
            None => match v.booster {
                Some(b) => if is_blank(b.icon) {
                    Some(booster_icon_detail())
                } else {
                    None
                },
                None => None,
            },
        },
    }
}

/// Where a target lives in the game (not a screen position).
#[derive(Debug, Clone, Copy, PartialEq, Eq)]
pub enum TargetSlot {
    /// Game stratagem slot 1..4 (0-based).
    Stratagem(usize),
    Booster,
}

impl TargetSlot {
    /// Progress ordinal shown in the GUI (1..=5).
    pub fn ordinal(self) -> (r: usize)
        requires
            self matches TargetSlot::Stratagem(i) ==> i < usize::MAX,
        ensures
            r == match self {
                TargetSlot::Stratagem(i) => i + 1,
                TargetSlot::Booster => GAME_STRATAGEM_SLOTS + 1,
            },
    {
        match self {
            TargetSlot::Stratagem(i) => i + 1,
            TargetSlot::Booster => GAME_STRATAGEM_SLOTS + 1,
        }
    }

    /// Progress label: `SLOT {n}/5` or `BOOSTER`.
    pub fn label(self) -> (r: String)
        requires
            self matches TargetSlot::Stratagem(i) ==> i < usize::MAX,
        ensures
            r@ == match self {
                TargetSlot::Stratagem(i) => "SLOT "@ + decimal((i + 1) as nat) + "/5"@,
                TargetSlot::Booster => "BOOSTER"@,
            },
    {
        let mut s = String::new();
        match self {
            TargetSlot::Stratagem(i) => {
                push_str(&mut s, "SLOT ");
                push_decimal(&mut s, (i + 1) as u64);
                push_str(&mut s, "/5");
            },
            TargetSlot::Booster => {
                push_str(&mut s, "BOOSTER");
            },
        }
        s
    }
}

impl LoadoutSyncSelection {
    /// A selection with nothing configured.
    pub fn empty() -> (r: LoadoutSyncSelection)
        ensures
            r@.stratagems == seq![None::<LoadoutItemView>, None, None, None],
            r@.booster is None,
    {
        let r = LoadoutSyncSelection { stratagems: [None, None, None, None], booster: None };
        assert(r@.stratagems =~= seq![None::<LoadoutItemView>, None, None, None]);
        r
    }

    /// A field-by-field copy.
    pub fn duplicate(&self) -> (r: LoadoutSyncSelection)
        ensures
            r@ == self@,
    {
        let r = LoadoutSyncSelection {
            stratagems: [
                duplicate_opt(&self.stratagems[0]),
                duplicate_opt(&self.stratagems[1]),
                duplicate_opt(&self.stratagems[2]),
                duplicate_opt(&self.stratagems[3]),
            ],
            booster: duplicate_opt(&self.booster),
        };
        assert(r@.stratagems =~= self@.stratagems);
        r
    }

    /// Reads one H2AC slot.
    fn read_slot(
        catalog: &[BuiltinStratagem],
        slots: &[Option<usize>],
        plugin_slots: &HashMap<usize, PluginStratagem>,
        index: usize,
    ) -> (r: Option<LoadoutItem>)
        ensures
            opt_item_view(r) == slot_item(catalog@, slots@, plugin_slots@, index),
    {
        if index >= slots.len() {
            return None;
        }
        match slots[index] {
            None => None,
            Some(raw) => {
                if raw == PLUGIN_SLOT_MARK {
                    match plugin_slots.get(&index) {
                        Some(p) => Some(LoadoutItem::plugin(p)),
                        None => None,
                    }
                } else {
                    LoadoutItem::base(catalog, raw)
                }
            },
        }
    }

    /// Reads H2AC slots 06..10 (index 5..=9) into S1..S4 + booster.
    ///
    /// Out of range indices and a plugin mark without plugin data count as
    /// "not configured".
    pub fn from_slots(
        catalog: &[BuiltinStratagem],
        slots: &[Option<usize>],
        plugin_slots: &HashMap<usize, PluginStratagem>,
    ) -> (r: LoadoutSyncSelection)
        ensures
            r@.stratagems.len() == 4,
            forall|i: int|
                0 <= i < 4 ==> #[trigger] r@.stratagems[i] == slot_item(
                    catalog@,
                    slots@,
                    plugin_slots@,
                    (LOADOUT_FIRST_SLOT + i) as usize,
                ),
            r@.booster == slot_item(catalog@, slots@, plugin_slots@, BOOSTER_SLOT),
    {
        LoadoutSyncSelection {
            stratagems: [
                Self::read_slot(catalog, slots, plugin_slots, LOADOUT_FIRST_SLOT),
                Self::read_slot(catalog, slots, plugin_slots, LOADOUT_FIRST_SLOT + 1),
                Self::read_slot(catalog, slots, plugin_slots, LOADOUT_FIRST_SLOT + 2),
                Self::read_slot(catalog, slots, plugin_slots, LOADOUT_FIRST_SLOT + 3),
            ],
            booster: Self::read_slot(catalog, slots, plugin_slots, BOOSTER_SLOT),
        }
    }

    /// Local validation: all four stratagems configured and distinct; the
    /// booster may be empty but, when set, needs an icon.
    pub fn validate(&self) -> (r: Result<(), LoadoutSyncError>)
        ensures
            r is Ok <==> validation_detail(self@) is None,
            r is Err ==> (r->Err_0 matches LoadoutSyncError::InvalidSelection { detail }
                && detail@ == validation_detail(self@)->0),
    {
        let ghost v = self@;
        let mut i: usize = 0;
        while i < GAME_STRATAGEM_SLOTS
            invariant
                i <= 4,
                v == self@,
                forall|k: int| 0 <= k < i ==> v.stratagems[k] is Some,
            decreases 4 - i,
        {
            if self.stratagems[i].is_none() {
                let mut d = String::new();
                push_str(&mut d, "Loadout Stratagem Slot ");
                push_decimal(&mut d, (i + 1) as u64);
                push_str(&mut d, " 未配置。");
                assert(v.stratagems[i as int] is None);
                assert(d@ =~= missing_detail(i as int));
                return Err(LoadoutSyncError::InvalidSelection { detail: d });
            }
            i = i + 1;
        }
        let mut a: usize = 0;
        while a < GAME_STRATAGEM_SLOTS
            invariant
                a <= 4,
                v == self@,
                forall|k: int| 0 <= k < 4 ==> v.stratagems[k] is Some,
                forall|p: int, q: int| 0 <= p < a && p < q < 4 ==> !same_key(v.stratagems, p, q),
            decreases 4 - a,
        {
            let mut b: usize = a + 1;
            while b < GAME_STRATAGEM_SLOTS
                invariant
                    a < 4,
                    a + 1 <= b <= 4,
                    v == self@,
                    forall|k: int| 0 <= k < 4 ==> v.stratagems[k] is Some,
                    forall|p: int, q: int|
                        0 <= p < a && p < q < 4 ==> !same_key(v.stratagems, p, q),
                    forall|q: int| a < q < b ==> !same_key(v.stratagems, a as int, q),
                decreases 4 - b,
            {
                let x = match &self.stratagems[a] {
                    Some(x) => x,
                    None => {
                        assert(false);
                        return Ok(());
                    },
                };
                let y = match &self.stratagems[b] {
                    Some(y) => y,
                    None => {
                        assert(false);
                        return Ok(());
                    },
                };
                if x.key() == y.key() {
                    let mut d = String::new();
                    push_str(&mut d, "存在重复 Stratagem（");
                    push_str(&mut d, x.name.as_str());
                    push_str(&mut d, " 与 ");
                    push_str(&mut d, y.name.as_str());
                    push_str(&mut d, "），无法创建有效 Loadout。");
                    assert(same_key(v.stratagems, a as int, b as int));
                    assert(first_duplicate(v.stratagems) == Some((a as int, b as int)));
                    assert(d@ =~= duplicate_detail(
                        v.stratagems[a as int]->0.name,
                        v.stratagems[b as int]->0.name,
                    ));
                    return Err(LoadoutSyncError::InvalidSelection { detail: d });
                }
                b = b + 1;
            }
            a = a + 1;
        }
        assert(first_duplicate(v.stratagems) is None);
        match &self.booster {
            Some(bo) => {
                if str_is_blank(bo.icon.as_str()) {
                    let mut d = String::new();
                    push_str(&mut d, "Booster 缺少图标资源，无法进行视觉匹配。");
                    return Err(LoadoutSyncError::InvalidSelection { detail: d });
                }
            },
            None => {},
        }
        Ok(())
    }

    /// Stratagem `index` (0-based), if configured.
    pub fn stratagem(&self, index: usize) -> (r: Option<&LoadoutItem>)
        ensures
            index < 4 && self@.stratagems[index as int] is Some ==> r is Some && r->0@
                == self@.stratagems[index as int]->0,
            !(index < 4 && self@.stratagems[index as int] is Some) ==> r is None,
    {
        if index < GAME_STRATAGEM_SLOTS {
            match &self.stratagems[index] {
                Some(s) => Some(s),
                None => None,
            }
        } else {
            None
        }
    }

    /// The configured stratagems with their slot index, in slot order.
    pub fn stratagems_iter(&self) -> (r: Vec<(usize, LoadoutItem)>)
        ensures
            r@.map_values(|p: (usize, LoadoutItem)| (p.0 as int, p.1@)) == filled_with_index(
                self@.stratagems,
                4,
            ),
    {
        let mut r: Vec<(usize, LoadoutItem)> = Vec::new();
        let mut i: usize = 0;
        while i < GAME_STRATAGEM_SLOTS
            invariant
                i <= 4,
                r@.map_values(|p: (usize, LoadoutItem)| (p.0 as int, p.1@)) == filled_with_index(
                    self@.stratagems,
                    i as int,
                ),
            decreases 4 - i,
        {
            match &self.stratagems[i] {
                Some(s) => {
                    r.push((i, s.duplicate()));
                },
                None => {},
            }
            assert(r@.map_values(|p: (usize, LoadoutItem)| (p.0 as int, p.1@)) =~= filled_with_index(
                self@.stratagems,
                i + 1,
            ));
            i = i + 1;
        }
        r
    }

    /// Number of configured stratagem slots.
    pub fn filled_stratagem_count(&self) -> (r: usize)
        ensures
            r == filled_with_index(self@.stratagems, 4).len(),
    {
        let mut n: usize = 0;
        let mut i: usize = 0;
        while i < GAME_STRATAGEM_SLOTS
            invariant
                i <= 4,
                n == filled_with_index(self@.stratagems, i as int).len(),
                n <= i,
            decreases 4 - i,
        {
            if self.stratagems[i].is_some() {
                n = n + 1;
            }
            i = i + 1;
        }
        n
    }

    /// All targets (configured stratagems, then the booster), in GUI order.
    pub fn targets(&self) -> (r: Vec<(TargetSlot, LoadoutItem)>)
        ensures
            r@.map_values(|p: (TargetSlot, LoadoutItem)| (p.0, p.1@)) == targets_of(self@),
    {
        let list = self.stratagems_iter();
        let mut r: Vec<(TargetSlot, LoadoutItem)> = Vec::new();
        let mut k: usize = 0;
        while k < list.len()
            invariant
                k <= list@.len(),
                list@.map_values(|p: (usize, LoadoutItem)| (p.0 as int, p.1@)) == filled_with_index(
                    self@.stratagems,
                    4,
                ),
                r@.map_values(|p: (TargetSlot, LoadoutItem)| (p.0, p.1@)) =~= stratagem_targets(
                    filled_with_index(self@.stratagems, 4),
                ).take(k as int),
            decreases list@.len() - k,
        {
            let (i, ref item) = list[k];
            let ghost before = r@.map_values(|p: (TargetSlot, LoadoutItem)| (p.0, p.1@));
            proof {
                let m = list@.map_values(|p: (usize, LoadoutItem)| (p.0 as int, p.1@));
                assert(m[k as int] == (i as int, item@));
                let lst = filled_with_index(self@.stratagems, 4);
                assert(lst[k as int] == (i as int, item@));
                assert(stratagem_targets(lst)[k as int] == (TargetSlot::Stratagem(i), item@));
            }
            r.push((TargetSlot::Stratagem(i), item.duplicate()));
            proof {
                let lst = filled_with_index(self@.stratagems, 4);
                assert(stratagem_targets(lst).take(k + 1) =~= stratagem_targets(lst).take(
                    k as int,
                ).push((TargetSlot::Stratagem(i), item@)));
                assert(r@.map_values(|p: (TargetSlot, LoadoutItem)| (p.0, p.1@)) =~= before.push(
                    (TargetSlot::Stratagem(i), item@),
                ));
            }
            k = k + 1;
        }
        proof {
            let lst = filled_with_index(self@.stratagems, 4);
            assert(list@.len() == lst.len());
            assert(stratagem_targets(lst).take(k as int) =~= stratagem_targets(lst));
        }
        match &self.booster {
            Some(b) => {
                r.push((TargetSlot::Booster, b.duplicate()));
            },
            None => {},
        }
        assert(r@.map_values(|p: (TargetSlot, LoadoutItem)| (p.0, p.1@)) =~= targets_of(self@));
        r
    }
}

/// The configured entries among the first `n` slots, with their index.
pub open spec fn filled_with_index(s: Seq<Option<LoadoutItemView>>, n: int) -> Seq<
    (int, LoadoutItemView),
>
    decreases n,
{
    if n <= 0 {
        Seq::empty()
    } else {
        let prev = filled_with_index(s, n - 1);
        match s[n - 1] {
            Some(item) => prev.push((n - 1, item)),
            None => prev,
        }
    }
}

/// Stratagem targets of a list of `(slot, item)` pairs.
pub open spec fn stratagem_targets(list: Seq<(int, LoadoutItemView)>) -> Seq<
    (TargetSlot, LoadoutItemView),
> {
    list.map_values(|p: (int, LoadoutItemView)| (TargetSlot::Stratagem(p.0 as usize), p.1))
}

/// All targets of a selection, in GUI order.
pub open spec fn targets_of(v: SelectionView) -> Seq<(TargetSlot, LoadoutItemView)> {
    let s = stratagem_targets(filled_with_index(v.stratagems, 4));
    match v.booster {
        Some(b) => s.push((TargetSlot::Booster, b)),
        None => s,
    }
}


/// Law: a selection of four stratagem slots passes validation exactly when
/// every slot is configured, no two slots (whichever two) hold items of the
/// same identity, and a booster, when set, has an icon. When every slot is
/// configured but two hold the same item, the detail names such a pair.
pub proof fn lemma_validation_accepts_exactly(v: SelectionView)
    requires
        v.stratagems.len() == 4,
    ensures
        validation_detail(v) is None <==> {
            &&& forall|i: int| 0 <= i < 4 ==> #[trigger] v.stratagems[i] is Some
            &&& forall|i: int, j: int|
                0 <= i < j < 4 ==> item_key(#[trigger] v.stratagems[i]->0) != item_key(
                    #[trigger] v.stratagems[j]->0,
                )
            &&& v.booster matches Some(b) ==> !is_blank(b.icon)
        },
        (forall|i: int| 0 <= i < 4 ==> #[trigger] v.stratagems[i] is Some) && (exists|i: int, j: int|
            0 <= i < j < 4 && item_key(#[trigger] v.stratagems[i]->0) == item_key(
                #[trigger] v.stratagems[j]->0,
            )) ==> exists|i: int, j: int|
            0 <= i < j < 4 && item_key(#[trigger] v.stratagems[i]->0) == item_key(
                #[trigger] v.stratagems[j]->0,
            ) && validation_detail(v) == Some(
                duplicate_detail(v.stratagems[i]->0.name, v.stratagems[j]->0.name),
            ),
{
    let s = v.stratagems;
    if first_missing(s) is None {
        assert(s[0] is Some && s[1] is Some && s[2] is Some && s[3] is Some);
        match first_duplicate(s) {
            Some((i, j)) => {
                assert(0 <= i < j < 4 && item_key(s[i]->0) == item_key(s[j]->0));
            },
            None => {
                assert forall|i: int, j: int| 0 <= i < j < 4 implies item_key(#[trigger] s[i]->0)
                    != item_key(#[trigger] s[j]->0) by {
                    assert(!same_key(s, i, j));
                }
            },
        }
    } else {
        let k = first_missing(s)->0;
        assert(s[k] is None);
    }
}

} // verus!
