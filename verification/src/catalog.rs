//! The stratagem catalog as the library sees it: built-in entries (addressed
//! by index) and plugin entries (carried whole).
use vstd::prelude::*;

verus! {

/// Slot value that marks "this slot holds a plugin stratagem"; the entry itself
/// lives in the plugin map under the slot index.
pub const PLUGIN_SLOT_MARK: usize = 9999;

/// Category name of the booster entries.
pub const CAT_BOOSTERS: &'static str = "Booster";

/// A built-in stratagem: display name, icon key and category.
#[derive(Debug, Clone, PartialEq)]
pub struct BuiltinStratagem {
    pub name: String,
    pub icon: String,
    pub category: String,
}

/// Plain view of a built-in stratagem.
pub struct BuiltinView {
    pub name: Seq<char>,
    pub icon: Seq<char>,
    pub category: Seq<char>,
}

impl View for BuiltinStratagem {
    type V = BuiltinView;

    open spec fn view(&self) -> BuiltinView {
        BuiltinView { name: self.name@, icon: self.icon@, category: self.category@ }
    }
}

/// A stratagem contributed by a plugin file.
#[derive(Debug, Clone, PartialEq)]
pub struct PluginStratagem {
    pub name: String,
    pub category: String,
    pub model: String,
    pub command: Vec<String>,
    pub description: String,
    pub icon: String,
}

/// Plain view of a plugin stratagem.
pub struct PluginView {
    pub name: Seq<char>,
    pub category: Seq<char>,
    pub model: Seq<char>,
    pub command: Seq<Seq<char>>,
    pub description: Seq<char>,
    pub icon: Seq<char>,
}

impl View for PluginStratagem {
    type V = PluginView;

    open spec fn view(&self) -> PluginView {
        PluginView {
            name: self.name@,
            category: self.category@,
            model: self.model@,
            command: self.command@.map_values(|c: String| c@),
            description: self.description@,
            icon: self.icon@,
        }
    }
}

/// Copies a list of strings.
pub fn copy_strings(v: &Vec<String>) -> (r: Vec<String>)
    ensures
        r@.map_values(|c: String| c@) == v@.map_values(|c: String| c@),
{
    let mut r: Vec<String> = Vec::new();
    let mut i: usize = 0;
    while i < v.len()
        invariant
            i <= v.len(),
            r@.len() == i,
            forall|k: int| 0 <= k < i ==> #[trigger] r@[k]@ == v@[k]@,
        decreases v.len() - i,
    {
        r.push(v[i].clone());
        i = i + 1;
    }
    assert(r@.map_values(|c: String| c@) =~= v@.map_values(|c: String| c@));
    r
}

impl PluginStratagem {
    /// A field-by-field copy.
    pub fn duplicate(&self) -> (r: PluginStratagem)
        ensures
            r@ == self@,
    {
        PluginStratagem {
            name: self.name.clone(),
            category: self.category.clone(),
            model: self.model.clone(),
            command: copy_strings(&self.command),
            description: self.description.clone(),
            icon: self.icon.clone(),
        }
    }
}

impl BuiltinStratagem {
    /// A field-by-field copy.
    pub fn duplicate(&self) -> (r: BuiltinStratagem)
        ensures
            r@ == self@,
    {
        BuiltinStratagem {
            name: self.name.clone(),
            icon: self.icon.clone(),
            category: self.category.clone(),
        }
    }
}

} // verus!
