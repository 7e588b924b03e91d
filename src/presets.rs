//! The user's own presets, kept as an ordered list keyed by `id`.
//!
//! Loading and saving the list is the caller's part; these operations take
//! the loaded list and change it in place.
use vstd::prelude::*;
use crate::ip::same_chars;
use crate::text::to_chars;
use crate::types::DnsPreset;

verus! {

/// Why a change to the preset list was refused.
#[derive(Debug, Clone, Copy, PartialEq, Eq, Structural)]
pub enum PresetError {
    DuplicateId,
    NotFound,
}

impl PresetError {
    pub fn message(&self) -> (r: String)
        ensures
            r@ == (match self {
                PresetError::DuplicateId => "Preset with this ID already exists"@,
                PresetError::NotFound => "Preset not found"@,
            }),
    {
        match self {
            PresetError::DuplicateId => "Preset with this ID already exists".to_owned(),
            PresetError::NotFound => "Preset not found".to_owned(),
        }
    }
}

/// Some preset of `ps` has the id `id`.
pub open spec fn has_id(ps: Seq<DnsPreset>, id: Seq<char>) -> bool {
    exists|i: int| 0 <= i < ps.len() && ps[i].id@ == id
}

/// Index of the first preset with id `id` at or after `i`, or the length.
pub open spec fn index_of_id(ps: Seq<DnsPreset>, id: Seq<char>, i: int) -> int
    decreases ps.len() - i,
{
    if i < 0 || i >= ps.len() {
        ps.len() as int
    } else if ps[i].id@ == id {
        i
    } else {
        index_of_id(ps, id, i + 1)
    }
}

/// `ps` without the presets whose id is `id`, in order.
pub open spec fn without_id(ps: Seq<DnsPreset>, id: Seq<char>) -> Seq<DnsPreset>
    decreases ps.len(),
{
    if ps.len() == 0 {
        seq![]
    } else if ps.last().id@ == id {
        without_id(ps.drop_last(), id)
    } else {
        without_id(ps.drop_last(), id).push(ps.last())
    }
}

pub proof fn lemma_index_of_id(ps: Seq<DnsPreset>, id: Seq<char>, i: int)
    requires
        0 <= i <= ps.len(),
    ensures
        i <= index_of_id(ps, id, i) <= ps.len(),
        index_of_id(ps, id, i) < ps.len() ==> ps[index_of_id(ps, id, i)].id@ == id,
        forall|j: int| i <= j < index_of_id(ps, id, i) ==> ps[j].id@ != id,
    decreases ps.len() - i,
{
    if i < ps.len() && ps[i].id@ != id {
        lemma_index_of_id(ps, id, i + 1);
    }
}

/// Removing an id that no preset has leaves the list as it is.
pub proof fn lemma_delete_absent_is_noop(ps: Seq<DnsPreset>, id: Seq<char>)
    requires
        !has_id(ps, id),
    ensures
        without_id(ps, id) == ps,
    decreases ps.len(),
{
    if ps.len() > 0 {
        assert(!has_id(ps.drop_last(), id)) by {
            if has_id(ps.drop_last(), id) {
                let i = choose|i: int| 0 <= i < ps.drop_last().len() && ps.drop_last()[i].id@ == id;
                assert(ps[i].id@ == id);
            }
        }
        lemma_delete_absent_is_noop(ps.drop_last(), id);
        assert(ps.last().id@ != id);
        assert(ps.drop_last().push(ps.last()) =~= ps);
    }
}

pub struct CustomPresetsManager;

impl CustomPresetsManager {
    fn position(presets: &Vec<DnsPreset>, id: &String) -> (r: usize)
        ensures
            r as int == index_of_id(presets@, id@, 0),
    {
        let mut i: usize = 0;
        while i < presets.len() && presets[i].id != *id
            invariant
                i <= presets@.len(),
                index_of_id(presets@, id@, 0) == index_of_id(presets@, id@, i as int),
            decreases presets.len() - i,
        {
            i = i + 1;
        }
        i
    }

    /// Adds `preset` at the end, unless a preset with its id is already there.
    pub fn add_custom_preset(presets: &mut Vec<DnsPreset>, preset: DnsPreset) -> (r: Result<
        (),
        PresetError,
    >)
        ensures
            r is Err <==> has_id(old(presets)@, preset.id@),
            r matches Err(e) ==> e == PresetError::DuplicateId && final(presets)@ == old(
                presets,
            )@,
            r is Ok ==> final(presets)@ == old(presets)@.push(preset),
    {
        let i = Self::position(presets, &preset.id);
        proof {
            lemma_index_of_id(presets@, preset.id@, 0);
        }
        if i < presets.len() {
            return Err(PresetError::DuplicateId);
        }
        presets.push(preset);
        Ok(())
    }

    /// Removes every preset with id `id`; an absent id changes nothing.
    pub fn delete_custom_preset(presets: &mut Vec<DnsPreset>, id: &str)
        ensures
            final(presets)@ == without_id(old(presets)@, id@),
    {
        let ghost orig = presets@;
        let n = presets.len();
        assert(orig.len() == n);
        let mut kept: Vec<DnsPreset> = Vec::new();
        let mut k: usize = 0;
        while presets.len() > 0
            invariant
                k <= orig.len(),
                orig.len() <= usize::MAX,
                presets@ == orig.subrange(k as int, orig.len() as int),
                kept@ == without_id(orig.subrange(0, k as int), id@),
            decreases presets.len(),
        {
            assert(presets@.len() == orig.len() - k);
            let p = presets.remove(0);
            assert(orig.subrange(0, k + 1).drop_last() =~= orig.subrange(0, k as int));
            assert(p == orig[k as int]);
            let pid = to_chars(p.id.as_str());
            let want = to_chars(id);
            if !same_chars(pid.as_slice(), want.as_slice()) {
                kept.push(p);
            }
            k = k + 1;
            assert(presets@ =~= orig.subrange(k as int, orig.len() as int));
        }
        assert(orig.subrange(0, k as int) =~= orig);
        *presets = kept;
    }

    /// Replaces the first preset with the id of `preset`, if there is one.
    pub fn update_custom_preset(presets: &mut Vec<DnsPreset>, preset: DnsPreset) -> (r: Result<
        (),
        PresetError,
    >)
        ensures
            r is Err <==> !has_id(old(presets)@, preset.id@),
            r matches Err(e) ==> e == PresetError::NotFound && final(presets)@ == old(presets)@,
            r is Ok ==> final(presets)@ == old(presets)@.update(
                index_of_id(old(presets)@, preset.id@, 0),
                preset,
            ),
    {
        let i = Self::position(presets, &preset.id);
        proof {
            lemma_index_of_id(presets@, preset.id@, 0);
        }
        if i >= presets.len() {
            return Err(PresetError::NotFound);
        }
        presets[i] = preset;
        Ok(())
    }
}

} // verus!
