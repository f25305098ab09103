//! The models of a scene as the renderer receives them, and how the
//! renderer's own list follows the scene's.

use vstd::prelude::*;
use crate::registry::ShaderId;

verus! {

/// Three single-precision numbers, each by its bit pattern.
#[derive(Clone, Copy, Debug, PartialEq, Eq, Structural)]
pub struct Bits3 {
    pub x: u32,
    pub y: u32,
    pub z: u32,
}

/// Four single-precision numbers, each by its bit pattern.
#[derive(Clone, Copy, Debug, PartialEq, Eq, Structural)]
pub struct Bits4 {
    pub x: u32,
    pub y: u32,
    pub z: u32,
    pub w: u32,
}

/// Position, rotation and uniform scale of a model. Each number is held by
/// the bit pattern of its single-precision value, so that two transforms are
/// equal exactly when all their numbers have the same bits.
#[derive(Clone, Copy, Debug, PartialEq, Eq, Structural)]
pub struct Transform {
    pub position: Bits3,
    pub rotation: Bits4,
    pub scale: u32,
}

/// Shading parameters of a model, held by bit patterns like `Transform`.
#[derive(Clone, Copy, Debug, PartialEq, Eq, Structural)]
pub struct MaterialInfo {
    pub color: Bits3,
    pub emissive: Bits3,
    pub roughness: u32,
    pub metallic: u32,
}

/// One model of the scene. Models are told apart by `id`; two are equal when
/// all their fields are.
#[derive(Clone, Copy, Debug, PartialEq, Eq, Structural)]
pub struct ModelInfo {
    pub id: u64,
    pub shader_id: ShaderId,
    pub transform: Transform,
    pub instance_count: u32,
    pub material_info: MaterialInfo,
}

/// How the renderer's list of models changed in an update.
#[derive(Clone, Debug)]
pub struct ModelChanges {
    /// Positions whose model was replaced by a different one, ascending.
    pub updated: Vec<usize>,
    /// Those of the updated positions at which another model took the place,
    /// one with a different id, ascending.
    pub replaced: Vec<usize>,
    /// Number of models appended at the end.
    pub added: usize,
    /// Number of models removed from the end.
    pub removed: usize,
}

/// The positions below `upto` at which `current` and `wanted` differ, ascending.
pub open spec fn differing_positions(
    current: Seq<ModelInfo>,
    wanted: Seq<ModelInfo>,
    upto: int,
) -> Seq<usize>
    decreases upto,
{
    if upto <= 0 {
        Seq::empty()
    } else if current[upto - 1] != wanted[upto - 1] {
        differing_positions(current, wanted, upto - 1).push((upto - 1) as usize)
    } else {
        differing_positions(current, wanted, upto - 1)
    }
}

/// The positions below `upto` at which `current` and `wanted` hold models
/// with different ids, ascending.
pub open spec fn replaced_positions(
    current: Seq<ModelInfo>,
    wanted: Seq<ModelInfo>,
    upto: int,
) -> Seq<usize>
    decreases upto,
{
    if upto <= 0 {
        Seq::empty()
    } else if current[upto - 1].id != wanted[upto - 1].id {
        replaced_positions(current, wanted, upto - 1).push((upto - 1) as usize)
    } else {
        replaced_positions(current, wanted, upto - 1)
    }
}

/// Bit pattern of the single-precision number one.
pub const ONE_BITS: u32 = 0x3f80_0000;

impl MaterialInfo {
    /// The material of a model whose shader is missing: plain magenta,
    /// neither emissive nor metallic, and fully rough.
    pub fn missing() -> (material: MaterialInfo)
        ensures
            material == (MaterialInfo {
                color: Bits3 { x: ONE_BITS, y: 0, z: ONE_BITS },
                emissive: Bits3 { x: 0, y: 0, z: 0 },
                roughness: ONE_BITS,
                metallic: 0,
            }),
    {
        MaterialInfo {
            color: Bits3 { x: ONE_BITS, y: 0, z: ONE_BITS },
            emissive: Bits3 { x: 0, y: 0, z: 0 },
            roughness: ONE_BITS,
            metallic: 0,
        }
    }
}

/// The smaller of two lengths.
pub open spec fn spec_min(a: int, b: int) -> int {
    if a <= b {
        a
    } else {
        b
    }
}

/// Makes `models` equal to `game_models`, touching no more than it must:
/// a model that is already equal to the scene's stays untouched, a different
/// one is replaced, missing ones are appended and surplus ones removed.
/// Reports which positions were updated, at which of them the model's
/// identity changed, and how the length changed.
pub fn update_models(models: &mut Vec<ModelInfo>, game_models: &Vec<ModelInfo>) -> (changes:
    ModelChanges)
    ensures
        final(models)@ == game_models@,
        changes.updated@ == differing_positions(
            old(models)@,
            game_models@,
            spec_min(old(models)@.len() as int, game_models@.len() as int),
        ),
        changes.replaced@ == replaced_positions(
            old(models)@,
            game_models@,
            spec_min(old(models)@.len() as int, game_models@.len() as int),
        ),
        changes.added == if game_models@.len() > old(models)@.len() {
            game_models@.len() - old(models)@.len()
        } else {
            0
        },
        changes.removed == if old(models)@.len() > game_models@.len() {
            old(models)@.len() - game_models@.len()
        } else {
            0
        },
{
    let current: usize = models.len();
    let wanted: usize = game_models.len();
    let shared: usize = if current <= wanted {
        current
    } else {
        wanted
    };
    let mut updated: Vec<usize> = Vec::new();
    let mut replaced: Vec<usize> = Vec::new();
    let mut i: usize = 0;
    while i < shared
        invariant
            i <= shared,
            shared <= models@.len(),
            shared <= game_models@.len(),
            models@.len() == old(models)@.len(),
            forall|k: int| 0 <= k < i ==> #[trigger] models@[k] == game_models@[k],
            forall|k: int| i <= k < models@.len() ==> #[trigger] models@[k] == old(models)@[k],
            updated@ == differing_positions(old(models)@, game_models@, i as int),
            replaced@ == replaced_positions(old(models)@, game_models@, i as int),
        decreases shared - i,
    {
        if models[i] != game_models[i] {
            if models[i].id != game_models[i].id {
                replaced.push(i);
            }
            models[i] = game_models[i];
            updated.push(i);
        }
        i = i + 1;
    }
    let mut added: usize = 0;
    let mut removed: usize = 0;
    if current < wanted {
        let mut j: usize = current;
        while j < wanted
            invariant
                current <= j <= wanted,
                wanted == game_models@.len(),
                models@.len() == j,
                forall|k: int| 0 <= k < j ==> #[trigger] models@[k] == game_models@[k],
            decreases wanted - j,
        {
            models.push(game_models[j]);
            j = j + 1;
        }
        added = wanted - current;
    } else if current > wanted {
        models.truncate(wanted);
        removed = current - wanted;
    }
    assert(models@ =~= game_models@);
    ModelChanges { updated, replaced, added, removed }
}

} // verus!
