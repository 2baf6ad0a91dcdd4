//! Sound presets and the catalog that holds them.
use vstd::prelude::*;
use crate::keys::{CATEGORY_COUNT, SLOT_COUNT};

verus! {

/// A decoded audio clip, named by its position in the store of decoded payloads.
#[derive(Clone, Copy, Debug, PartialEq, Eq, Structural)]
pub struct SoundClip {
    pub id: u64,
}

/// Why a preset or a catalog could not be built.
#[derive(Clone, Copy, Debug, PartialEq, Eq, Structural)]
pub enum CatalogError {
    /// A press clip set is missing or empty, or a release clip set is missing.
    IncompletePreset,
    /// Two presets carry the same name.
    DuplicatePresetName,
}

/// The mathematical value of a preset: its name and its table of clip sets.
pub struct PresetView {
    pub name: Seq<char>,
    pub clips: Seq<Seq<SoundClip>>,
}

/// A table of clip sets is complete when it has one set per slot and every
/// press set holds at least one clip; release sets may be empty (silent).
pub open spec fn complete_table(clips: Seq<Seq<SoundClip>>) -> bool {
    &&& clips.len() == SLOT_COUNT
    &&& forall|i: int| 0 <= i < CATEGORY_COUNT ==> #[trigger] clips[i].len() > 0
}

/// A named mapping from (category, transition) slots to candidate clips.
/// Every value of this type has a complete table.
pub struct SoundPreset {
    name: String,
    clips: Vec<Vec<SoundClip>>,
}

impl View for SoundPreset {
    type V = PresetView;

    closed spec fn view(&self) -> PresetView {
        PresetView { name: self.name@, clips: self.clips@.map_values(|v: Vec<SoundClip>| v@) }
    }
}

impl SoundPreset {
    #[verifier::type_invariant]
    spec fn inv(self) -> bool {
        complete_table(self@.clips)
    }

    /// Builds a preset from its press clip sets and its release clip sets, each
    /// given in category order. Rejects a table that is not complete.
    pub fn new(name: String, press: Vec<Vec<SoundClip>>, release: Vec<Vec<SoundClip>>) -> (r:
        Result<SoundPreset, CatalogError>)
        ensures
            match r {
                Ok(p) => p@.name == name@ && p@.clips == (press@ + release@).map_values(
                    |v: Vec<SoundClip>| v@,
                ),
                Err(e) => e == CatalogError::IncompletePreset,
            },
            r is Ok <==> press@.len() == CATEGORY_COUNT && release@.len() == CATEGORY_COUNT && (
            forall|i: int| 0 <= i < CATEGORY_COUNT ==> #[trigger] press@[i]@.len() > 0),
    {
        if press.len() != CATEGORY_COUNT || release.len() != CATEGORY_COUNT {
            return Err(CatalogError::IncompletePreset);
        }
        let mut i: usize = 0;
        while i < CATEGORY_COUNT
            invariant
                i <= CATEGORY_COUNT,
                press@.len() == CATEGORY_COUNT,
                forall|j: int| 0 <= j < i ==> #[trigger] press@[j]@.len() > 0,
            decreases CATEGORY_COUNT - i,
        {
            if press[i].len() == 0 {
                return Err(CatalogError::IncompletePreset);
            }
            i = i + 1;
        }
        let mut clips = press;
        let mut rest = release;
        let ghost joined = clips@ + rest@;
        clips.append(&mut rest);
        let p = SoundPreset { name, clips };
        proof {
            assert(p.clips@ == joined);
            assert forall|j: int| 0 <= j < CATEGORY_COUNT implies #[trigger] p@.clips[j].len() > 0 by {
                assert(p@.clips[j] == joined[j]@);
            }
        }
        Ok(p)
    }

    /// The preset's name.
    pub fn name(&self) -> (r: &String)
        ensures
            r@ == self@.name,
    {
        &self.name
    }

    /// How many clips the set at `slot` holds. The table it reads is complete,
    /// as that of every preset is.
    pub fn set_len(&self, slot: usize) -> (r: usize)
        requires
            slot < SLOT_COUNT,
        ensures
            r == self@.clips[slot as int].len(),
            complete_table(self@.clips),
    {
        proof { use_type_invariant(self); }
        self.clips[slot].len()
    }

    /// The clip at position `i` of the set at `slot`.
    pub fn clip(&self, slot: usize, i: usize) -> (r: SoundClip)
        requires
            slot < SLOT_COUNT,
            i < self@.clips[slot as int].len(),
        ensures
            r == self@.clips[slot as int][i as int],
    {
        proof { use_type_invariant(self); }
        self.clips[slot][i]
    }
}

/// No two presets of `s` share a name.
pub open spec fn names_unique(s: Seq<PresetView>) -> bool {
    forall|i: int, j: int|
        0 <= i < s.len() && 0 <= j < s.len() && i != j ==> #[trigger] s[i].name != #[trigger] s[j].name
}

/// The views of a sequence of presets.
pub open spec fn preset_views(s: Seq<SoundPreset>) -> Seq<PresetView> {
    s.map_values(|p: SoundPreset| p@)
}

/// The presets bundled with the program, loaded once and read-only after.
/// Names are unique.
pub struct Catalog {
    presets: Vec<SoundPreset>,
}

impl View for Catalog {
    type V = Seq<PresetView>;

    closed spec fn view(&self) -> Seq<PresetView> {
        preset_views(self.presets@)
    }
}

impl Catalog {
    #[verifier::type_invariant]
    spec fn inv(self) -> bool {
        names_unique(self@)
    }

    /// Builds the catalog from presets in menu order; fails when two of them
    /// share a name.
    pub fn load_all(presets: Vec<SoundPreset>) -> (r: Result<Catalog, CatalogError>)
        ensures
            match r {
                Ok(c) => c@ == preset_views(presets@),
                Err(e) => e == CatalogError::DuplicatePresetName,
            },
            r is Ok <==> names_unique(preset_views(presets@)),
    {
        let ghost v = preset_views(presets@);
        let n = presets.len();
        let mut i: usize = 0;
        while i < n
            invariant
                n == presets@.len(),
                v == preset_views(presets@),
                i <= n,
                forall|a: int, b: int|
                    0 <= a < i && 0 <= b < n && a != b ==> #[trigger] v[a].name != #[trigger] v[b].name,
            decreases n - i,
        {
            let mut j: usize = 0;
            while j < n
                invariant
                    n == presets@.len(),
                    v == preset_views(presets@),
                    i < n,
                    j <= n,
                    forall|a: int, b: int|
                        0 <= a < i && 0 <= b < n && a != b ==> #[trigger] v[a].name != #[trigger] v[b].name,
                    forall|b: int| 0 <= b < j && b != i ==> v[i as int].name != #[trigger] v[b].name,
                decreases n - j,
            {
                let same = presets[i].name().eq(presets[j].name());
                proof {
                    assert(v[i as int] == presets@[i as int]@);
                    assert(v[j as int] == presets@[j as int]@);
                }
                if j != i && same {
                    return Err(CatalogError::DuplicatePresetName);
                }
                j = j + 1;
            }
            i = i + 1;
        }
        proof {
            assert forall|a: int, b: int|
                0 <= a < v.len() && 0 <= b < v.len() && a != b implies #[trigger] v[a].name
                != #[trigger] v[b].name by {
                if a > b {
                    assert(v[b].name != v[a].name);
                }
            }
        }
        Ok(Catalog { presets })
    }

    /// Number of presets.
    pub fn len(&self) -> (r: usize)
        ensures
            r == self@.len(),
    {
        self.presets.len()
    }

    /// The preset at position `i`.
    pub fn get(&self, i: usize) -> (r: &SoundPreset)
        requires
            i < self@.len(),
        ensures
            r@ == self@[i as int],
    {
        proof {
            assert(self@[i as int] == self.presets@[i as int]@);
        }
        &self.presets[i]
    }

    /// Position of the preset called `name`, if there is one.
    pub fn find(&self, name: &String) -> (r: Option<usize>)
        ensures
            match r {
                Some(i) => i < self@.len() && self@[i as int].name == name@,
                None => forall|i: int| 0 <= i < self@.len() ==> #[trigger] self@[i].name != name@,
            },
    {
        let mut i: usize = 0;
        while i < self.presets.len()
            invariant
                i <= self@.len(),
                self@.len() == self.presets@.len(),
                forall|k: int| 0 <= k < i ==> #[trigger] self@[k].name != name@,
            decreases self@.len() - i,
        {
            let same = self.presets[i].name().eq(name);
            proof {
                assert(self@[i as int] == self.presets@[i as int]@);
            }
            if same {
                return Some(i);
            }
            i = i + 1;
        }
        None
    }

    /// The preset names, in catalog order.
    pub fn list_presets(&self) -> (r: Vec<String>)
        ensures
            r@.len() == self@.len(),
            forall|i: int| 0 <= i < r@.len() ==> #[trigger] r@[i]@ == self@[i].name,
    {
        let mut r: Vec<String> = Vec::new();
        let mut i: usize = 0;
        while i < self.presets.len()
            invariant
                i <= self@.len(),
                self@.len() == self.presets@.len(),
                r@.len() == i,
                forall|k: int| 0 <= k < i ==> #[trigger] r@[k]@ == self@[k].name,
            decreases self@.len() - i,
        {
            proof {
                assert(self@[i as int] == self.presets@[i as int]@);
            }
            r.push(self.presets[i].name().clone());
            i = i + 1;
        }
        r
    }
}

} // verus!
