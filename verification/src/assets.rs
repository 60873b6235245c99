//! Asset references as they appear in input values, the resolved handles that
//! construction produces for them, and the identifier the loader assigns to a
//! handle requested for a path.

use vstd::prelude::*;
use vstd::string::StringSliceAdditionalSpecFns;

verus! {

/// The identifier carried by a default handle, before any real handle exists.
pub const DEFAULT_HANDLE_ID: u64 = 0;

/// The seed of the path-identifier fold.
pub const PATH_ID_SEED: u64 = 0xcbf29ce484222325;

/// The multiplier of the path-identifier fold.
pub const PATH_ID_PRIME: u64 = 0x100000001b3;

/// The identifier the loader assigns to a handle requested for a path: a fold
/// over the path's bytes, so the same path always receives the same
/// identifier.
pub open spec fn spec_path_id(bytes: Seq<u8>) -> u64
    decreases bytes.len(),
{
    if bytes.len() == 0 {
        PATH_ID_SEED
    } else {
        vstd::wrapping::u64_specs::wrapping_mul(
            spec_path_id(bytes.drop_last()) ^ (bytes.last() as u64),
            PATH_ID_PRIME,
        )
    }
}

/// [`spec_path_id`] over a path given by its characters.
pub open spec fn spec_handle_id(path: Seq<char>) -> u64 {
    spec_path_id(vstd::utf8::encode_utf8(path))
}

/// Computes the identifier the loader assigns to a handle for `path`.
pub fn path_id(path: &str) -> (r: u64)
    ensures
        r == spec_handle_id(path@),
{
    let bytes = path.as_bytes();
    let n = bytes.len();
    let mut acc: u64 = PATH_ID_SEED;
    proof {
        assert(bytes@.take(0) =~= Seq::<u8>::empty());
    }
    for i in 0..n
        invariant
            n == bytes@.len(),
            bytes@ == path.spec_bytes(),
            acc == spec_path_id(bytes@.take(i as int)),
    {
        proof {
            assert(bytes@.take(i + 1).drop_last() =~= bytes@.take(i as int));
            assert(bytes@.take(i + 1).last() == bytes@[i as int]);
        }
        acc = (acc ^ (bytes[i] as u64)).wrapping_mul(PATH_ID_PRIME);
    }
    proof {
        assert(bytes@.take(n as int) =~= bytes@);
    }
    acc
}

/// Replacement value for an asset handle in a pre-resolution input: either a
/// path the asset should be loaded from, or the identifier of a handle that
/// already exists.
#[derive(Debug, PartialEq, Eq)]
pub enum ProtoAsset {
    /// The path to an asset, relative to the asset root.
    AssetPath(String),
    /// The identifier of an existing handle.
    HandleId(u64),
}

/// A resolved asset handle, as produced by construction. It records how the
/// handle was obtained: by requesting a load of a path, or by retrieving an
/// existing handle for an identifier. `id` is the identifier the loader
/// assigned to the handle, and `ty` is the tag of the asset type the schema
/// declared for the field.
#[derive(Debug, PartialEq, Eq)]
pub enum AssetHandle {
    /// A handle freshly requested for `path` (the load may still be pending);
    /// `id` is the identifier the loader assigned when the load was requested.
    Loaded { id: u64, path: String, ty: u64 },
    /// An existing handle with identifier `id`, retrieved without loading.
    Existing { id: u64, ty: u64 },
}

impl ProtoAsset {
    /// Returns the asset path referenced by this value, if any.
    pub fn to_asset_path(&self) -> (r: Option<&String>)
        ensures
            match self {
                ProtoAsset::AssetPath(p) => r matches Some(q) && q == p,
                ProtoAsset::HandleId(_) => r is None,
            },
    {
        match self {
            ProtoAsset::AssetPath(path) => Some(path),
            ProtoAsset::HandleId(_) => None,
        }
    }

    /// Returns a [`ProtoAsset::HandleId`] carrying the default handle
    /// identifier, usable as the default value of an asset field.
    pub fn default_handle_id() -> (r: Self)
        ensures
            r == ProtoAsset::HandleId(DEFAULT_HANDLE_ID),
    {
        ProtoAsset::HandleId(DEFAULT_HANDLE_ID)
    }
}

impl From<AssetHandle> for ProtoAsset {
    /// Turns a resolved handle back into an input-side reference: the
    /// identifier variant on both arms, carrying the handle's identifier
    /// exactly. The path variant is never produced, so a reference rebuilt
    /// from a handle can never re-trigger a path registration or a fresh
    /// load.
    fn from(value: AssetHandle) -> (r: Self) {
        match value {
            AssetHandle::Loaded { id, path: _, ty: _ } => ProtoAsset::HandleId(id),
            AssetHandle::Existing { id, ty: _ } => ProtoAsset::HandleId(id),
        }
    }
}

impl vstd::std_specs::convert::FromSpecImpl<AssetHandle> for ProtoAsset {
    open spec fn obeys_from_spec() -> bool {
        true
    }

    open spec fn from_spec(v: AssetHandle) -> ProtoAsset {
        match v {
            AssetHandle::Loaded { id, path, ty } => ProtoAsset::HandleId(id),
            AssetHandle::Existing { id, ty } => ProtoAsset::HandleId(id),
        }
    }
}

} // verus!
