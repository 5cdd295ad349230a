//! Compact mode preset model: the five-slot draft of the overlay and the
//! overlay lifecycle.
//!
//! Slots 6..9 are the game's stratagems 1..4, slot 10 is the booster. Editing
//! only changes the in-memory draft; only a successful auto loadout writes it
//! back to slots 06..10. Showing the overlay and running the auto loadout are
//! independent actions.
use vstd::prelude::*;
use std::collections::HashMap;
use crate::catalog::{BuiltinStratagem, PluginStratagem, PluginView, PLUGIN_SLOT_MARK};
use crate::config::SLOT_COUNT;
use crate::loadout_sync::error::LoadoutSyncError;
use crate::loadout_sync::selection::{
    base_item, opt_item_view, plugin_item, validation_detail, LoadoutItem, LoadoutItemView,
    LoadoutSyncSelection, SelectionView,
};
use crate::text::{decimal, push_char, push_decimal, push_str};

verus! {

broadcast use vstd::std_specs::hash::group_hash_axioms;

/// Preset slots: 4 stratagems + 1 booster.
pub const PRESET_SLOTS: usize = 5;
/// Index of the booster in the preset.
pub const BOOSTER_INDEX: usize = 4;
/// H2AC slot index of the first preset entry (slot 06).
pub const FIRST_H2AC_SLOT: usize = 5;

/// Slots 06..10 (index 5..=9) are the auto-loadout slots.
pub open spec fn is_loadout_slot_spec(slot: usize) -> bool {
    FIRST_H2AC_SLOT <= slot < FIRST_H2AC_SLOT + PRESET_SLOTS
}

/// Whether H2AC slot `slot` takes part in the auto loadout (slots 06..10).
///
/// The overlay shows the TASK row (01..05) and the LOADOUT row (06..10); only
/// the latter is assembled automatically.
pub fn is_loadout_slot(slot: usize) -> (r: bool)
    ensures
        r == is_loadout_slot_spec(slot),
{
    FIRST_H2AC_SLOT <= slot && slot < FIRST_H2AC_SLOT + PRESET_SLOTS
}

/// H2AC slot → draft index (0..4 = S1..S4 + booster); `None` off the LOADOUT row.
pub fn draft_index_of(slot: usize) -> (r: Option<usize>)
    ensures
        r == if is_loadout_slot_spec(slot) {
            Some((slot - FIRST_H2AC_SLOT) as usize)
        } else {
            None::<usize>
        },
{
    if is_loadout_slot(slot) {
        Some(slot - FIRST_H2AC_SLOT)
    } else {
        None
    }
}

/// What writing back a slot needs: built-ins by index, plugins whole.
#[derive(Debug, PartialEq)]
pub enum PresetPayload {
    Base(usize),
    Plugin(Box<PluginStratagem>),
}

/// Plain view of a payload.
pub enum PayloadView {
    Base(usize),
    Plugin(PluginView),
}

impl View for PresetPayload {
    type V = PayloadView;

    open spec fn view(&self) -> PayloadView {
        match self {
            PresetPayload::Base(i) => PayloadView::Base(*i),
            PresetPayload::Plugin(p) => PayloadView::Plugin(p@),
        }
    }
}

/// One draft entry: the item and what writing it back needs.
#[derive(Debug, PartialEq)]
pub struct PresetEntry {
    pub item: LoadoutItem,
    pub payload: PresetPayload,
}

/// Plain view of an entry.
pub struct EntryView {
    pub item: LoadoutItemView,
    pub payload: PayloadView,
}

impl View for PresetEntry {
    type V = EntryView;

    open spec fn view(&self) -> EntryView {
        EntryView { item: self.item@, payload: self.payload@ }
    }
}

/// The entry of built-in stratagem `index`, if the catalog has one.
pub open spec fn base_entry(catalog: Seq<BuiltinStratagem>, index: usize) -> Option<EntryView> {
    match base_item(catalog, index) {
        Some(item) => Some(EntryView { item, payload: PayloadView::Base(index) }),
        None => None,
    }
}

/// The entry of a plugin stratagem.
pub open spec fn plugin_entry(p: PluginView) -> EntryView {
    EntryView { item: plugin_item(p), payload: PayloadView::Plugin(p) }
}

/// View of an optional entry.
pub open spec fn opt_entry_view(o: Option<PresetEntry>) -> Option<EntryView> {
    match o {
        Some(e) => Some(e@),
        None => None,
    }
}

/// Views of the values of a plugin map.
pub open spec fn plugin_map_view(m: Map<usize, PluginStratagem>) -> Map<usize, PluginView> {
    Map::new(|k: usize| m.contains_key(k), |k: usize| m[k]@)
}

impl PresetEntry {
    /// A field-by-field copy.
    pub fn duplicate(&self) -> (r: PresetEntry)
        ensures
            r@ == self@,
    {
        let payload = match &self.payload {
            PresetPayload::Base(i) => PresetPayload::Base(*i),
            PresetPayload::Plugin(p) => PresetPayload::Plugin(Box::new(p.duplicate())),
        };
        PresetEntry { item: self.item.duplicate(), payload }
    }

    /// The entry of built-in stratagem `index` (`None` when out of range).
    pub fn from_base(catalog: &[BuiltinStratagem], index: usize) -> (r: Option<PresetEntry>)
        ensures
            opt_entry_view(r) == base_entry(catalog@, index),
    {
        match LoadoutItem::base(catalog, index) {
            Some(item) => Some(PresetEntry { item, payload: PresetPayload::Base(index) }),
            None => None,
        }
    }

    /// The entry of a plugin stratagem (the plugin data is copied).
    pub fn from_plugin(p: &PluginStratagem) -> (r: PresetEntry)
        ensures
            r@ == plugin_entry(p@),
    {
        PresetEntry {
            item: LoadoutItem::plugin(p),
            payload: PresetPayload::Plugin(Box::new(p.duplicate())),
        }
    }

    /// Display name of the entry.
    pub fn name(&self) -> (r: &str)
        ensures
            r@ == self@.item.name,
    {
        self.item.name.as_str()
    }
}

/// Copies an optional entry.
pub fn duplicate_entry(o: &Option<PresetEntry>) -> (r: Option<PresetEntry>)
    ensures
        opt_entry_view(r) == opt_entry_view(*o),
{
    match o {
        Some(e) => Some(e.duplicate()),
        None => None,
    }
}

/// The five draft entries (S1..S4 + booster).
#[derive(Debug, PartialEq)]
pub struct PresetDraft {
    pub entries: [Option<PresetEntry>; PRESET_SLOTS],
}

impl View for PresetDraft {
    type V = Seq<Option<EntryView>>;

    open spec fn view(&self) -> Seq<Option<EntryView>> {
        self.entries@.map_values(|o: Option<PresetEntry>| opt_entry_view(o))
    }
}

/// The empty draft.
pub open spec fn empty_draft() -> Seq<Option<EntryView>> {
    seq![None, None, None, None, None]
}

/// What H2AC slot `index` holds as a draft entry.
pub open spec fn slot_entry(
    catalog: Seq<BuiltinStratagem>,
    slots: Seq<Option<usize>>,
    plugins: Map<usize, PluginView>,
    index: usize,
) -> Option<EntryView> {
    if index < slots.len() && slots[index as int] is Some {
        let raw = slots[index as int]->0;
        if raw == PLUGIN_SLOT_MARK {
            if plugins.contains_key(index) {
                Some(plugin_entry(plugins[index]))
            } else {
                None
            }
        } else {
            base_entry(catalog, raw)
        }
    } else {
        None
    }
}

/// The draft read from slots 06..10.
pub open spec fn draft_from_slots(
    catalog: Seq<BuiltinStratagem>,
    slots: Seq<Option<usize>>,
    plugins: Map<usize, PluginView>,
) -> Seq<Option<EntryView>> {
    Seq::new(
        PRESET_SLOTS as nat,
        |k: int| slot_entry(catalog, slots, plugins, (FIRST_H2AC_SLOT + k) as usize),
    )
}

/// The slot value written for a draft entry.
pub open spec fn written_value(e: Option<EntryView>) -> Option<usize> {
    match e {
        Some(ev) => match ev.payload {
            PayloadView::Base(i) => Some(i),
            PayloadView::Plugin(_) => Some(PLUGIN_SLOT_MARK),
        },
        None => None,
    }
}

/// The slot list after writing back a draft (slots past the end are skipped).
pub open spec fn slots_after_apply(slots: Seq<Option<usize>>, d: Seq<Option<EntryView>>) -> Seq<
    Option<usize>,
> {
    Seq::new(
        slots.len(),
        |i: int|
            if FIRST_H2AC_SLOT <= i < FIRST_H2AC_SLOT + PRESET_SLOTS {
                written_value(d[i - FIRST_H2AC_SLOT])
            } else {
                slots[i]
            },
    )
}

/// The plugin map after writing back a draft: plugin entries are stored under
/// their slot, every other written slot loses its plugin data.
pub open spec fn plugins_after_apply(
    plugins: Map<usize, PluginView>,
    slots_len: nat,
    d: Seq<Option<EntryView>>,
) -> Map<usize, PluginView> {
    Map::new(
        |k: usize|
            if FIRST_H2AC_SLOT <= k < FIRST_H2AC_SLOT + PRESET_SLOTS && k < slots_len {
                d[k - FIRST_H2AC_SLOT] matches Some(ev) && ev.payload is Plugin
            } else {
                plugins.contains_key(k)
            },
        |k: usize|
            if FIRST_H2AC_SLOT <= k < FIRST_H2AC_SLOT + PRESET_SLOTS && k < slots_len {
                d[k - FIRST_H2AC_SLOT]->0.payload->Plugin_0
            } else {
                plugins[k]
            },
    )
}

/// Number of configured stratagem entries (the first four).
pub open spec fn stratagem_count_spec(d: Seq<Option<EntryView>>) -> nat {
    (if d[0] is Some { 1nat } else { 0nat }) + (if d[1] is Some { 1nat } else { 0nat }) + (if d[2]
        is Some {
        1nat
    } else {
        0nat
    }) + (if d[3] is Some { 1nat } else { 0nat })
}

/// The selection a draft asks for.
pub open spec fn selection_of(d: Seq<Option<EntryView>>) -> SelectionView {
    SelectionView {
        stratagems: seq![entry_item(d[0]), entry_item(d[1]), entry_item(d[2]), entry_item(d[3])],
        booster: entry_item(d[4]),
    }
}

/// The item of an optional entry.
pub open spec fn entry_item(e: Option<EntryView>) -> Option<LoadoutItemView> {
    match e {
        Some(ev) => Some(ev.item),
        None => None,
    }
}

/// A draft entry that writing back and reading again reproduces: built-ins
/// name an existing catalog entry (not the plugin mark) and carry its item,
/// plugins carry the item of their own data.
pub open spec fn entry_wf(catalog: Seq<BuiltinStratagem>, e: Option<EntryView>) -> bool {
    match e {
        Some(ev) => match ev.payload {
            PayloadView::Base(i) => i != PLUGIN_SLOT_MARK && base_entry(catalog, i) == Some(ev),
            PayloadView::Plugin(p) => ev == plugin_entry(p),
        },
        None => true,
    }
}

/// Every entry of the draft is `entry_wf`.
pub open spec fn draft_wf(catalog: Seq<BuiltinStratagem>, d: Seq<Option<EntryView>>) -> bool {
    &&& d.len() == PRESET_SLOTS
    &&& forall|k: int| 0 <= k < PRESET_SLOTS ==> entry_wf(catalog, #[trigger] d[k])
}

impl Default for PresetDraft {
    fn default() -> (r: PresetDraft)
        ensures
            r@ == empty_draft(),
    {
        let r = PresetDraft { entries: [None, None, None, None, None] };
        assert(r@ =~= empty_draft());
        r
    }
}

impl PresetDraft {
    /// A field-by-field copy.
    pub fn duplicate(&self) -> (r: PresetDraft)
        ensures
            r@ == self@,
    {
        let r = PresetDraft {
            entries: [
                duplicate_entry(&self.entries[0]),
                duplicate_entry(&self.entries[1]),
                duplicate_entry(&self.entries[2]),
                duplicate_entry(&self.entries[3]),
                duplicate_entry(&self.entries[4]),
            ],
        };
        assert(r@ =~= self@);
        r
    }

    /// Reads one H2AC slot as a draft entry.
    fn read_entry(
        catalog: &[BuiltinStratagem],
        slots: &[Option<usize>],
        plugin_slots: &HashMap<usize, PluginStratagem>,
        index: usize,
    ) -> (r: Option<PresetEntry>)
        ensures
            opt_entry_view(r) == slot_entry(
                catalog@,
                slots@,
                plugin_map_view(plugin_slots@),
                index,
            ),
    {
        if index >= slots.len() {
            return None;
        }
        match slots[index] {
            None => None,
            Some(raw) => {
                if raw == PLUGIN_SLOT_MARK {
                    match plugin_slots.get(&index) {
                        Some(p) => Some(PresetEntry::from_plugin(p)),
                        None => None,
                    }
                } else {
                    PresetEntry::from_base(catalog, raw)
                }
            },
        }
    }

    /// The draft held by H2AC slots 06..10; empty, out-of-range and unknown
    /// values give empty entries.
    pub fn from_slots(
        catalog: &[BuiltinStratagem],
        slots: &[Option<usize>],
        plugin_slots: &HashMap<usize, PluginStratagem>,
    ) -> (r: PresetDraft)
        ensures
            r@ == draft_from_slots(catalog@, slots@, plugin_map_view(plugin_slots@)),
    {
        let r = PresetDraft {
            entries: [
                Self::read_entry(catalog, slots, plugin_slots, FIRST_H2AC_SLOT),
                Self::read_entry(catalog, slots, plugin_slots, FIRST_H2AC_SLOT + 1),
                Self::read_entry(catalog, slots, plugin_slots, FIRST_H2AC_SLOT + 2),
                Self::read_entry(catalog, slots, plugin_slots, FIRST_H2AC_SLOT + 3),
                Self::read_entry(catalog, slots, plugin_slots, FIRST_H2AC_SLOT + 4),
            ],
        };
        assert(r@ =~= draft_from_slots(catalog@, slots@, plugin_map_view(plugin_slots@)));
        r
    }

    /// The Loadout Sync selection, entry by entry (no shifting, no filling).
    pub fn to_selection(&self) -> (r: LoadoutSyncSelection)
        ensures
            r@ == selection_of(self@),
    {
        let r = LoadoutSyncSelection {
            stratagems: [
                self.item_of(0),
                self.item_of(1),
                self.item_of(2),
                self.item_of(3),
            ],
            booster: self.item_of(BOOSTER_INDEX),
        };
        assert(r@.stratagems =~= selection_of(self@).stratagems);
        r
    }

    /// The item of entry `k`.
    fn item_of(&self, k: usize) -> (r: Option<LoadoutItem>)
        requires
            k < PRESET_SLOTS,
        ensures
            opt_item_view(r) == entry_item(self@[k as int]),
    {
        match &self.entries[k] {
            Some(e) => Some(e.item.duplicate()),
            None => None,
        }
    }

    /// Local validation: four distinct stratagems, optional booster.
    pub fn validate(&self) -> (r: Result<(), LoadoutSyncError>)
        ensures
            r is Ok <==> validation_detail(selection_of(self@)) is None,
            r is Err ==> (r->Err_0 matches LoadoutSyncError::InvalidSelection { detail }
                && detail@ == validation_detail(selection_of(self@))->0),
    {
        self.to_selection().validate()
    }

    /// Number of configured stratagem entries.
    pub fn stratagem_count(&self) -> (r: usize)
        ensures
            r == stratagem_count_spec(self@),
    {
        let mut n: usize = 0;
        if self.entries[0].is_some() {
            n = n + 1;
        }
        if self.entries[1].is_some() {
            n = n + 1;
        }
        if self.entries[2].is_some() {
            n = n + 1;
        }
        if self.entries[3].is_some() {
            n = n + 1;
        }
        n
    }

    /// Replaces entry `index`; out-of-range indices are ignored.
    pub fn set(&mut self, index: usize, entry: Option<PresetEntry>)
        ensures
            index < PRESET_SLOTS ==> final(self)@ == old(self)@.update(
                index as int,
                opt_entry_view(entry),
            ),
            index >= PRESET_SLOTS ==> final(self)@ == old(self)@,
    {
        if index < PRESET_SLOTS {
            self.entries[index] = entry;
            assert(self@ =~= old(self)@.update(index as int, opt_entry_view(entry)));
        }
    }

    /// Display name of entry `index`, if set.
    pub fn name(&self, index: usize) -> (r: Option<&str>)
        ensures
            index < PRESET_SLOTS && self@[index as int] is Some ==> r is Some && r->0@
                == self@[index as int]->0.item.name,
            !(index < PRESET_SLOTS && self@[index as int] is Some) ==> r is None,
    {
        if index < PRESET_SLOTS {
            match &self.entries[index] {
                Some(e) => Some(e.name()),
                None => None,
            }
        } else {
            None
        }
    }

    /// Status bar summary, e.g. `4/4 + Booster`.
    pub fn summary(&self) -> (r: String)
        ensures
            r@ == decimal(stratagem_count_spec(self@)) + "/4"@ + if self@[BOOSTER_INDEX as int]
                is Some {
                " + Booster"@
            } else {
                Seq::<char>::empty()
            },
    {
        let strat = self.stratagem_count();
        let mut s = String::new();
        push_decimal(&mut s, strat as u64);
        push_str(&mut s, "/4");
        if self.entries[BOOSTER_INDEX].is_some() {
            push_str(&mut s, " + Booster");
        }
        assert(s@ =~= decimal(stratagem_count_spec(self@)) + "/4"@ + if self@[BOOSTER_INDEX as int]
            is Some {
            " + Booster"@
        } else {
            Seq::<char>::empty()
        });
        s
    }

    /// Writes the draft back to H2AC slots 06..10 (the only place a preset is
    /// persisted; called after a successful auto loadout). Slots past the end of
    /// `slots` are skipped.
    pub fn apply_to_slots(
        &self,
        slots: &mut [Option<usize>],
        plugin_slots: &mut HashMap<usize, PluginStratagem>,
    )
        ensures
            final(slots)@ == slots_after_apply(old(slots)@, self@),
            plugin_map_view(final(plugin_slots)@) == plugins_after_apply(
                plugin_map_view(old(plugin_slots)@),
                old(slots)@.len(),
                self@,
            ),
    {
        let ghost s0 = slots@;
        let ghost p0 = plugin_map_view(plugin_slots@);
        let mut offset: usize = 0;
        while offset < PRESET_SLOTS
            invariant
                offset <= PRESET_SLOTS,
                slots@.len() == s0.len(),
                forall|i: int|
                    0 <= i < s0.len() ==> #[trigger] slots@[i] == if FIRST_H2AC_SLOT <= i
                        < FIRST_H2AC_SLOT + offset {
                        written_value(self@[i - FIRST_H2AC_SLOT])
                    } else {
                        s0[i]
                    },
                forall|k: usize|
                    #![trigger plugin_map_view(plugin_slots@).contains_key(k)]
                    #![trigger plugin_map_view(plugin_slots@)[k]]
                    plugin_map_view(plugin_slots@).contains_key(k) == if FIRST_H2AC_SLOT <= k
                        < FIRST_H2AC_SLOT + offset && k < s0.len() {
                        self@[k - FIRST_H2AC_SLOT] matches Some(ev) && ev.payload is Plugin
                    } else {
                        p0.contains_key(k)
                    },
                forall|k: usize|
                    #![trigger plugin_map_view(plugin_slots@)[k]]
                    plugin_map_view(plugin_slots@).contains_key(k) ==> plugin_map_view(
                        plugin_slots@,
                    )[k] == if FIRST_H2AC_SLOT <= k < FIRST_H2AC_SLOT + offset && k
                        < s0.len() {
                        self@[k - FIRST_H2AC_SLOT]->0.payload->Plugin_0
                    } else {
                        p0[k]
                    },
            decreases PRESET_SLOTS - offset,
        {
            let index = FIRST_H2AC_SLOT + offset;
            let ghost pm = plugin_map_view(plugin_slots@);
            if index < slots.len() {
                match &self.entries[offset] {
                    Some(e) => match &e.payload {
                        PresetPayload::Base(i) => {
                            slots[index] = Some(*i);
                            plugin_slots.remove(&index);
                        },
                        PresetPayload::Plugin(p) => {
                            slots[index] = Some(PLUGIN_SLOT_MARK);
                            plugin_slots.insert(index, p.duplicate());
                        },
                    },
                    None => {
                        slots[index] = None;
                        plugin_slots.remove(&index);
                    },
                }
                proof {
                    let pn = plugin_map_view(plugin_slots@);
                    assert forall|k: usize| #[trigger] pn.contains_key(k) == if k == index {
                        self@[offset as int] matches Some(ev) && ev.payload is Plugin
                    } else {
                        pm.contains_key(k)
                    } by {}
                    assert forall|k: usize| #[trigger] pn.contains_key(k) ==> pn[k] == if k
                        == index {
                        self@[offset as int]->0.payload->Plugin_0
                    } else {
                        pm[k]
                    } by {}
                }
            }
            offset = offset + 1;
        }
        assert(slots@ =~= slots_after_apply(s0, self@));
        assert(plugin_map_view(plugin_slots@) =~= plugins_after_apply(p0, s0.len(), self@));
    }
}

/// Writing a well-formed draft back to a full slot list and reading it again
/// gives the same draft.
pub proof fn lemma_draft_roundtrip(
    catalog: Seq<BuiltinStratagem>,
    d: Seq<Option<EntryView>>,
    slots: Seq<Option<usize>>,
    plugins: Map<usize, PluginView>,
)
    requires
        draft_wf(catalog, d),
        slots.len() >= SLOT_COUNT,
    ensures
        draft_from_slots(
            catalog,
            slots_after_apply(slots, d),
            plugins_after_apply(plugins, slots.len(), d),
        ) == d,
{
    let s2 = slots_after_apply(slots, d);
    let p2 = plugins_after_apply(plugins, slots.len(), d);
    assert forall|k: int| 0 <= k < PRESET_SLOTS implies #[trigger] draft_from_slots(
        catalog,
        s2,
        p2,
    )[k] == d[k] by {
        let idx = (FIRST_H2AC_SLOT + k) as usize;
        assert(entry_wf(catalog, d[k]));
        assert(s2[idx as int] == written_value(d[k]));
        match d[k] {
            Some(ev) => match ev.payload {
                PayloadView::Base(i) => {},
                PayloadView::Plugin(p) => {
                    assert(p2.contains_key(idx));
                    assert(p2[idx] == p);
                },
            },
            None => {},
        }
    }
    assert(draft_from_slots(catalog, s2, p2) =~= d);
}

// ─── Overlay lifecycle ───
//
// Visibility of the overlay and the auto-loadout state are orthogonal. Only the
// overlay hotkey (show / hide / toggle) changes visibility; the auto loadout
// only hides temporarily and restores the visibility recorded before it began.
// While running the overlay may be shown, read-only.

/// Overlay visibility / editing state (driven by the overlay hotkey and the
/// restore logic only).
#[derive(Debug, Clone, Copy, PartialEq, Eq, Structural)]
pub enum OverlayPhase {
    /// Not shown.
    Hidden,
    /// Shown.
    Visible,
    /// Shown, with a slot being edited.
    Editing,
}

impl OverlayPhase {
    /// Stable name of the phase.
    pub fn name(self) -> (r: &'static str)
        ensures
            r@ == match self {
                OverlayPhase::Hidden => "Hidden"@,
                OverlayPhase::Visible => "Visible"@,
                OverlayPhase::Editing => "Editing"@,
            },
    {
        match self {
            OverlayPhase::Hidden => "Hidden",
            OverlayPhase::Visible => "Visible",
            OverlayPhase::Editing => "Editing",
        }
    }

    /// The phase puts the overlay on screen (Visible or Editing).
    pub open spec fn shows(self) -> bool {
        self is Visible || self is Editing
    }

    /// Whether the phase puts the overlay on screen.
    pub fn allows_overlay(self) -> (r: bool)
        ensures
            r == self.shows(),
    {
        match self {
            OverlayPhase::Hidden => false,
            _ => true,
        }
    }
}

/// Whether an auto loadout must hide the overlay for its duration: only when
/// the overlay view is active and the overlay is actually shown. In the normal
/// view the auto loadout never touches the window.
pub fn needs_temporary_hide(view_is_compact: bool, phase: OverlayPhase) -> (r: bool)
    ensures
        r == (view_is_compact && phase.shows()),
{
    view_is_compact && phase.allows_overlay()
}

/// Auto-loadout state (orthogonal to visibility; keeps going while hidden).
#[derive(Debug, PartialEq)]
pub enum AutomationPhase {
    Idle,
    Running,
    Succeeded,
    Failed(String),
    Cancelled,
}

/// Plain view of the auto-loadout state.
pub enum AutomationView {
    Idle,
    Running,
    Succeeded,
    Failed(Seq<char>),
    Cancelled,
}

impl View for AutomationPhase {
    type V = AutomationView;

    open spec fn view(&self) -> AutomationView {
        match self {
            AutomationPhase::Idle => AutomationView::Idle,
            AutomationPhase::Running => AutomationView::Running,
            AutomationPhase::Succeeded => AutomationView::Succeeded,
            AutomationPhase::Failed(m) => AutomationView::Failed(m@),
            AutomationPhase::Cancelled => AutomationView::Cancelled,
        }
    }
}

impl Default for AutomationPhase {
    fn default() -> (r: AutomationPhase)
        ensures
            r@ is Idle,
    {
        AutomationPhase::Idle
    }
}

impl AutomationPhase {
    /// Whether an auto loadout is running.
    pub fn is_running(&self) -> (r: bool)
        ensures
            r == (self@ is Running),
    {
        match self {
            AutomationPhase::Running => true,
            _ => false,
        }
    }
}

/// Result of an auto loadout as the overlay status bar reports it.
#[derive(Debug, Clone, PartialEq)]
pub enum OverlayOutcome {
    /// No result yet.
    Unset,
    Success,
    Failed(String),
    Cancelled,
}

/// Plain view of an outcome.
pub enum OutcomeView {
    Unset,
    Success,
    Failed(Seq<char>),
    Cancelled,
}

impl View for OverlayOutcome {
    type V = OutcomeView;

    open spec fn view(&self) -> OutcomeView {
        match self {
            OverlayOutcome::Unset => OutcomeView::Unset,
            OverlayOutcome::Success => OutcomeView::Success,
            OverlayOutcome::Failed(m) => OutcomeView::Failed(m@),
            OverlayOutcome::Cancelled => OutcomeView::Cancelled,
        }
    }
}

impl Default for OverlayOutcome {
    fn default() -> (r: OverlayOutcome)
        ensures
            r@ is Unset,
    {
        OverlayOutcome::Unset
    }
}

/// The picker opened on a slot.
#[derive(Debug, Clone, PartialEq)]
pub struct PresetEditorState {
    /// H2AC slot index being edited (0..9; 0..4 TASK row, 5..9 LOADOUT row).
    pub slot: usize,
    pub search: String,
    /// Category filter; `None` = all.
    pub category: Option<String>,
}

/// Plain view of the picker.
pub struct EditorView {
    pub slot: usize,
    pub search: Seq<char>,
    pub category: Option<Seq<char>>,
}

impl View for PresetEditorState {
    type V = EditorView;

    open spec fn view(&self) -> EditorView {
        EditorView {
            slot: self.slot,
            search: self.search@,
            category: match self.category {
                Some(c) => Some(c@),
                None => None,
            },
        }
    }
}

/// Overlay state: visibility, auto-loadout state, draft and picker.
#[derive(Debug, PartialEq)]
pub struct CompactPresetState {
    phase: OverlayPhase,
    /// Auto-loadout state (read-only overlay while running).
    pub automation: AutomationPhase,
    /// Visibility before the running auto loadout began (`None` = nothing to
    /// restore).
    were_visible: Option<bool>,
    pub draft: PresetDraft,
    pub editor: Option<PresetEditorState>,
    pub outcome: OverlayOutcome,
    /// Status bar text (failure reason / result).
    pub status: String,
    /// Snapshot requested by the last auto loadout.
    pub last_requested: Option<PresetDraft>,
    /// Phase trail.
    pub history: Vec<OverlayPhase>,
}

/// Plain view of the overlay state.
pub struct StateView {
    pub phase: OverlayPhase,
    pub automation: AutomationView,
    pub were_visible: Option<bool>,
    pub draft: Seq<Option<EntryView>>,
    pub editor: Option<EditorView>,
    pub outcome: OutcomeView,
    pub status: Seq<char>,
    pub last_requested: Option<Seq<Option<EntryView>>>,
    pub history: Seq<OverlayPhase>,
}

impl View for CompactPresetState {
    type V = StateView;

    closed spec fn view(&self) -> StateView {
        StateView {
            phase: self.phase,
            automation: self.automation@,
            were_visible: self.were_visible,
            draft: self.draft@,
            editor: match self.editor {
                Some(e) => Some(e@),
                None => None,
            },
            outcome: self.outcome@,
            status: self.status@,
            last_requested: match self.last_requested {
                Some(d) => Some(d@),
                None => None,
            },
            history: self.history@,
        }
    }
}

// ─── transitions over the plain state ───

/// Enter `p` and record it.
pub open spec fn goto_spec(s: StateView, p: OverlayPhase) -> StateView {
    StateView { phase: p, history: s.history.push(p), ..s }
}

/// User shows the overlay: closes the picker, drops the pending restore, clears
/// the last result when idle.
pub open spec fn show_spec(s: StateView) -> StateView {
    let t = StateView { editor: None, were_visible: None, ..s };
    let u = if t.automation is Idle {
        StateView { outcome: OutcomeView::Unset, status: Seq::empty(), ..t }
    } else {
        t
    };
    goto_spec(u, OverlayPhase::Visible)
}

/// User hides the overlay: closes the picker, drops the pending restore.
pub open spec fn hide_spec(s: StateView) -> StateView {
    goto_spec(StateView { editor: None, were_visible: None, ..s }, OverlayPhase::Hidden)
}

/// Overlay hotkey: hide when shown, show when hidden.
pub open spec fn toggle_spec(s: StateView) -> StateView {
    if s.phase.shows() {
        hide_spec(s)
    } else {
        show_spec(s)
    }
}

/// Auto loadout begins: remember the visibility (once) and hide.
pub open spec fn begin_hide_spec(s: StateView) -> StateView {
    let w = if s.were_visible is None {
        Some(s.phase.shows())
    } else {
        s.were_visible
    };
    goto_spec(StateView { were_visible: w, editor: None, ..s }, OverlayPhase::Hidden)
}

/// Auto loadout ends: restore the remembered visibility, if any.
pub open spec fn restore_spec(s: StateView) -> StateView {
    let t = StateView { were_visible: None, ..s };
    match s.were_visible {
        Some(true) => goto_spec(t, OverlayPhase::Visible),
        Some(false) => goto_spec(t, OverlayPhase::Hidden),
        None => t,
    }
}

/// The auto-loadout state an outcome leads to.
pub open spec fn automation_after(o: OutcomeView) -> AutomationView {
    match o {
        OutcomeView::Success => AutomationView::Succeeded,
        OutcomeView::Failed(m) => AutomationView::Failed(m),
        OutcomeView::Cancelled => AutomationView::Cancelled,
        OutcomeView::Unset => AutomationView::Idle,
    }
}

/// Auto loadout finished: record outcome and status, then restore.
pub open spec fn finish_spec(s: StateView, o: OutcomeView, status: Seq<char>) -> StateView {
    restore_spec(StateView { automation: automation_after(o), outcome: o, status, ..s })
}

/// Worker started.
pub open spec fn mark_running_spec(s: StateView) -> StateView {
    StateView { automation: AutomationView::Running, ..s }
}

/// The status bar text.
pub open spec fn status_line_spec(s: StateView) -> Seq<char> {
    if s.automation is Running {
        "AUTO LOADOUT · Running…"@
    } else if s.status.len() > 0 {
        s.status
    } else {
        match s.outcome {
            OutcomeView::Success => "AUTO LOADOUT · Completed"@,
            OutcomeView::Failed(_) => "AUTO LOADOUT · Failed"@,
            OutcomeView::Cancelled => "AUTO LOADOUT · Cancelled"@,
            OutcomeView::Unset => Seq::empty(),
        }
    }
}

/// The initial overlay state.
pub open spec fn initial_state() -> StateView {
    StateView {
        phase: OverlayPhase::Hidden,
        automation: AutomationView::Idle,
        were_visible: None,
        draft: empty_draft(),
        editor: None,
        outcome: OutcomeView::Unset,
        status: Seq::empty(),
        last_requested: None,
        history: seq![OverlayPhase::Hidden],
    }
}

impl Default for CompactPresetState {
    fn default() -> (r: CompactPresetState)
        ensures
            r@ == initial_state(),
    {
        let r = CompactPresetState {
            phase: OverlayPhase::Hidden,
            automation: AutomationPhase::Idle,
            were_visible: None,
            draft: PresetDraft::default(),
            editor: None,
            outcome: OverlayOutcome::Unset,
            status: String::new(),
            last_requested: None,
            history: vec![OverlayPhase::Hidden],
        };
        assert(r@.history =~= seq![OverlayPhase::Hidden]);
        r
    }
}

impl CompactPresetState {
    /// Current visibility phase.
    pub fn phase(&self) -> (r: OverlayPhase)
        ensures
            r == self@.phase,
    {
        self.phase
    }

    /// Whether the overlay is on screen (decided by visibility alone).
    pub fn overlay_visible(&self) -> (r: bool)
        ensures
            r == self@.phase.shows(),
    {
        self.phase.allows_overlay()
    }

    /// Editing is refused while an auto loadout runs (viewing is allowed).
    pub fn editing_allowed(&self) -> (r: bool)
        ensures
            r == !(self@.automation is Running),
    {
        !self.automation.is_running()
    }

    fn goto(&mut self, phase: OverlayPhase)
        ensures
            final(self)@ == goto_spec(old(self)@, phase),
    {
        self.phase = phase;
        self.history.push(phase);
    }

    /// Refreshes the draft from slots 06..10 (called when the overlay is
    /// shown); an edit in progress is not discarded: an open picker stays
    /// open.
    pub fn reseed(&mut self, draft: PresetDraft)
        ensures
            final(self)@ == (StateView { draft: draft@, ..old(self)@ }),
            final(self)@.editor == old(self)@.editor,
    {
        self.draft = draft;
    }

    /// Overlay hotkey: flips visibility in any auto-loadout state; returns the
    /// new visibility.
    pub fn toggle(&mut self) -> (r: bool)
        ensures
            final(self)@ == toggle_spec(old(self)@),
            r == final(self)@.phase.shows(),
            r == !old(self)@.phase.shows(),
    {
        if self.overlay_visible() {
            self.hide_overlay();
            false
        } else {
            self.show();
            true
        }
    }

    /// Shows the overlay (read-only while running). A user change of visibility
    /// drops the pending restore: the user's choice stands.
    pub fn show(&mut self)
        ensures
            final(self)@ == show_spec(old(self)@),
    {
        self.editor = None;
        self.were_visible = None;
        match self.automation {
            AutomationPhase::Idle => {
                self.outcome = OverlayOutcome::Unset;
                self.status = String::new();
            },
            _ => {},
        }
        self.goto(OverlayPhase::Visible);
    }

    /// Hides the overlay on the user's request.
    pub fn hide_overlay(&mut self)
        ensures
            final(self)@ == hide_spec(old(self)@),
    {
        self.editor = None;
        self.were_visible = None;
        self.goto(OverlayPhase::Hidden);
    }

    /// Auto loadout begins: remember whether the overlay was shown (the first
    /// time only) and hide it.
    pub fn begin_automation_hide(&mut self)
        ensures
            final(self)@ == begin_hide_spec(old(self)@),
    {
        if self.were_visible.is_none() {
            self.were_visible = Some(self.overlay_visible());
        }
        self.editor = None;
        self.goto(OverlayPhase::Hidden);
    }

    /// Registers an auto-loadout request: freeze the snapshot, hide, and mark
    /// running at once (before the worker starts).
    pub fn begin_automation(&mut self) -> (r: PresetDraft)
        ensures
            r@ == old(self)@.draft,
            final(self)@ == mark_running_spec(
                begin_hide_spec(StateView { last_requested: Some(old(self)@.draft), ..old(self)@ }),
            ),
    {
        let snapshot = self.snapshot_for_automation();
        self.begin_automation_hide();
        self.mark_running();
        snapshot
    }

    /// Auto loadout ended: restore the visibility remembered at its start. When
    /// the user changed visibility meanwhile nothing is restored.
    pub fn restore_after_automation(&mut self)
        ensures
            final(self)@ == restore_spec(old(self)@),
    {
        let w = self.were_visible;
        self.were_visible = None;
        match w {
            Some(true) => self.goto(OverlayPhase::Visible),
            Some(false) => self.goto(OverlayPhase::Hidden),
            None => {},
        }
    }

    /// Opens the picker on `slot`; refused for slots past the last one and
    /// while an auto loadout runs.
    pub fn open_editor(&mut self, slot: usize, default_category: Option<String>) -> (r: bool)
        ensures
            r == (slot < SLOT_COUNT && !(old(self)@.automation is Running)),
            !r ==> final(self)@ == old(self)@,
            r ==> {
                let t = StateView {
                    editor: Some(
                        EditorView {
                            slot,
                            search: Seq::empty(),
                            category: match default_category {
                                Some(c) => Some(c@),
                                None => None,
                            },
                        },
                    ),
                    ..old(self)@
                };
                final(self)@ == if old(self)@.phase is Visible {
                    goto_spec(t, OverlayPhase::Editing)
                } else {
                    t
                }
            },
    {
        if slot >= SLOT_COUNT || !self.editing_allowed() {
            return false;
        }
        self.editor = Some(
            PresetEditorState { slot, search: String::new(), category: default_category },
        );
        if self.phase == OverlayPhase::Visible {
            self.goto(OverlayPhase::Editing);
        }
        true
    }

    /// Closes the picker and hands over its target.
    pub fn take_editor(&mut self) -> (r: Option<PresetEditorState>)
        ensures
            match r {
                Some(e) => old(self)@.editor == Some(e@),
                None => old(self)@.editor is None,
            },
            ({
                let t = StateView { editor: None, ..old(self)@ };
                final(self)@ == if old(self)@.editor is Some && old(self)@.phase is Editing {
                    goto_spec(t, OverlayPhase::Visible)
                } else {
                    t
                }
            }),
    {
        let editor = self.editor.take();
        if editor.is_some() && self.phase == OverlayPhase::Editing {
            self.goto(OverlayPhase::Visible);
        }
        editor
    }

    /// Picker cancelled: nothing changes but the picker closing.
    pub fn cancel_editor(&mut self)
        ensures
            ({
                let t = StateView { editor: None, ..old(self)@ };
                final(self)@ == if old(self)@.phase is Editing {
                    goto_spec(t, OverlayPhase::Visible)
                } else {
                    t
                }
            }),
    {
        self.editor = None;
        if self.phase == OverlayPhase::Editing {
            self.goto(OverlayPhase::Visible);
        }
    }

    /// Records and returns the snapshot the auto loadout will write (visibility
    /// unchanged).
    pub fn snapshot_for_automation(&mut self) -> (r: PresetDraft)
        ensures
            r@ == old(self)@.draft,
            final(self)@ == (StateView { last_requested: Some(old(self)@.draft), ..old(self)@ }),
    {
        self.last_requested = Some(self.draft.duplicate());
        self.draft.duplicate()
    }

    /// The worker started.
    pub fn mark_running(&mut self)
        ensures
            final(self)@ == mark_running_spec(old(self)@),
    {
        self.automation = AutomationPhase::Running;
    }

    /// Auto loadout finished (success / failure / cancel): record the result,
    /// then restore visibility from the snapshot.
    pub fn finish(&mut self, outcome: OverlayOutcome, status: &str)
        ensures
            final(self)@ == finish_spec(old(self)@, outcome@, status@),
    {
        self.automation = match &outcome {
            OverlayOutcome::Success => AutomationPhase::Succeeded,
            OverlayOutcome::Failed(message) => AutomationPhase::Failed(message.clone()),
            OverlayOutcome::Cancelled => AutomationPhase::Cancelled,
            OverlayOutcome::Unset => AutomationPhase::Idle,
        };
        self.outcome = outcome;
        self.status = String::from_str(status);
        self.restore_after_automation();
    }

    /// Status bar text.
    pub fn status_line(&self) -> (r: String)
        ensures
            r@ == status_line_spec(self@),
    {
        if self.automation.is_running() {
            return String::from_str("AUTO LOADOUT · Running…");
        }
        if self.status.as_str().unicode_len() > 0 {
            return self.status.clone();
        }
        match self.outcome {
            OverlayOutcome::Success => String::from_str("AUTO LOADOUT · Completed"),
            OverlayOutcome::Failed(_) => String::from_str("AUTO LOADOUT · Failed"),
            OverlayOutcome::Cancelled => String::from_str("AUTO LOADOUT · Cancelled"),
            OverlayOutcome::Unset => String::new(),
        }
    }
}

// ─── laws of the overlay lifecycle ───

/// The overlay hotkey flips visibility and touches neither the auto-loadout
/// state nor the draft; pressing it twice restores the visibility.
pub proof fn lemma_toggle_flips_visibility(s: StateView)
    ensures
        toggle_spec(s).phase.shows() == !s.phase.shows(),
        toggle_spec(s).automation == s.automation,
        toggle_spec(s).draft == s.draft,
        toggle_spec(toggle_spec(s)).phase.shows() == s.phase.shows(),
{
}

/// An auto loadout started with nothing pending ends, whatever its outcome,
/// with the overlay shown exactly when it was shown before it began.
pub proof fn lemma_automation_restores_visibility(s: StateView, o: OutcomeView, status: Seq<char>)
    requires
        s.were_visible is None,
    ensures
        finish_spec(mark_running_spec(begin_hide_spec(s)), o, status).phase.shows()
            == s.phase.shows(),
        !begin_hide_spec(s).phase.shows(),
{
}

/// A second auto-loadout request while one is pending keeps the first
/// snapshot: the end restores the visibility from before the first request.
pub proof fn lemma_repeated_request_keeps_snapshot(s: StateView, o: OutcomeView, status: Seq<char>)
    requires
        s.were_visible is None,
    ensures
        finish_spec(begin_hide_spec(begin_hide_spec(s)), o, status).phase.shows()
            == s.phase.shows(),
{
}

/// When the user shows or hides the overlay during an auto loadout, the end of
/// the auto loadout leaves the user's choice in place.
pub proof fn lemma_user_choice_wins(s: StateView, o: OutcomeView, status: Seq<char>)
    ensures
        finish_spec(show_spec(begin_hide_spec(s)), o, status).phase is Visible,
        finish_spec(hide_spec(begin_hide_spec(s)), o, status).phase is Hidden,
{
}

/// The end of an auto loadout, whatever its outcome, leaves the preset draft
/// and the snapshot it was started with as they were: a failure or a cancel
/// never overwrites the preset.
pub proof fn lemma_finish_keeps_preset(s: StateView, o: OutcomeView, status: Seq<char>)
    ensures
        finish_spec(s, o, status).draft == s.draft,
        finish_spec(s, o, status).last_requested == s.last_requested,
        finish_spec(s, o, status).automation == automation_after(o),
{
}

/// Showing and hiding the overlay never touches the draft nor the requested
/// snapshot.
pub proof fn lemma_visibility_keeps_draft(s: StateView)
    ensures
        show_spec(s).draft == s.draft,
        hide_spec(s).draft == s.draft,
        begin_hide_spec(s).draft == s.draft,
        show_spec(s).last_requested == s.last_requested,
        hide_spec(s).last_requested == s.last_requested,
{
}

/// A call the auto-loadout side makes on the overlay before the run ends.
pub enum AutomationCall {
    /// `begin_automation_hide`.
    RequestHide,
    /// `begin_automation`.
    Request,
    /// `mark_running`.
    MarkRunning,
}

/// A visibility call the user makes.
pub enum UserCall {
    /// `show`.
    Show,
    /// `hide_overlay`.
    Hide,
}

/// The state after one auto-loadout call.
pub open spec fn automation_call_spec(s: StateView, c: AutomationCall) -> StateView {
    match c {
        AutomationCall::RequestHide => begin_hide_spec(s),
        AutomationCall::Request => mark_running_spec(
            begin_hide_spec(StateView { last_requested: Some(s.draft), ..s }),
        ),
        AutomationCall::MarkRunning => mark_running_spec(s),
    }
}

/// The state after the auto-loadout calls `cs`, in order.
pub open spec fn after_automation_calls(s: StateView, cs: Seq<AutomationCall>) -> StateView
    decreases cs.len(),
{
    if cs.len() == 0 {
        s
    } else {
        automation_call_spec(after_automation_calls(s, cs.drop_last()), cs.last())
    }
}

/// The state after the user's visibility calls `us`, in order.
pub open spec fn after_user_calls(s: StateView, us: Seq<UserCall>) -> StateView
    decreases us.len(),
{
    if us.len() == 0 {
        s
    } else {
        let t = after_user_calls(s, us.drop_last());
        match us.last() {
            UserCall::Show => show_spec(t),
            UserCall::Hide => hide_spec(t),
        }
    }
}

proof fn lemma_requests_snapshot(s: StateView, cs: Seq<AutomationCall>)
    requires
        s.were_visible is None,
        cs.len() >= 1,
        !(cs[0] is MarkRunning),
    ensures
        after_automation_calls(s, cs).were_visible == Some(s.phase.shows()),
        after_automation_calls(s, cs).draft == s.draft,
    decreases cs.len(),
{
    if cs.len() > 1 {
        assert(cs.drop_last()[0] == cs[0]);
        lemma_requests_snapshot(s, cs.drop_last());
    } else {
        assert(after_automation_calls(s, cs.drop_last()) == s);
        assert(cs.last() == cs[0]);
    }
}

proof fn lemma_user_calls_drop_restore(s: StateView, us: Seq<UserCall>)
    requires
        us.len() >= 1,
    ensures
        after_user_calls(s, us).were_visible is None,
        after_user_calls(s, us).draft == s.draft,
    decreases us.len(),
{
    if us.len() > 1 {
        lemma_user_calls_drop_restore(s, us.drop_last());
    } else {
        assert(after_user_calls(s, us.drop_last()) == s);
    }
}

/// The end of an auto loadout restores visibility after any number of
/// requests: starting with nothing pending, one or more auto-loadout requests
/// (with the worker marked running in between), then the end. Without a
/// visibility call by the user in between, the overlay is shown at the end
/// exactly when it was shown before the first request; after one or more such
/// calls, the user's last choice stays. Either way the end records the
/// outcome and the status and leaves the draft as it was.
pub proof fn lemma_finish_restores_after_requests(
    s: StateView,
    calls: Seq<AutomationCall>,
    user: Seq<UserCall>,
    o: OutcomeView,
    status: Seq<char>,
)
    requires
        s.were_visible is None,
        calls.len() >= 1,
        !(calls[0] is MarkRunning),
    ensures
        ({
            let before_end = after_user_calls(after_automation_calls(s, calls), user);
            let f = finish_spec(before_end, o, status);
            &&& f.outcome == o
            &&& f.status == status
            &&& f.automation == automation_after(o)
            &&& f.draft == s.draft
            &&& user.len() == 0 ==> f.phase == if s.phase.shows() {
                OverlayPhase::Visible
            } else {
                OverlayPhase::Hidden
            }
            &&& user.len() > 0 ==> f.phase == before_end.phase
        }),
{
    let t = after_automation_calls(s, calls);
    lemma_requests_snapshot(s, calls);
    if user.len() > 0 {
        lemma_user_calls_drop_restore(t, user);
    }
}

} // verus!
