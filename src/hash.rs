//! A 64-bit digest of a name.
use std::collections::hash_map::DefaultHasher;
use std::hash::Hasher;
use vstd::prelude::*;
use vstd::std_specs::hash::DefaultHasherAdditionalSpecFns;
use vstd::string::StringSliceAdditionalSpecFns;

verus! {

/// The digest of a name, as computed by std's default hasher.
#[derive(PartialEq, Eq, Structural, Clone, Copy, Debug, Hash)]
pub struct Hash(pub u64);

impl Hash {
    /// Hashes the bytes of a string with a fresh default hasher: one write
    /// of the bytes, then `finish`.
    pub fn of(value: &str) -> (r: Hash)
        ensures
            r.0 == DefaultHasher::spec_finish(seq![value.spec_bytes()]),
    {
        let mut hasher = DefaultHasher::new();
        hasher.write(value.as_bytes());
        assert(hasher@ =~= seq![value.spec_bytes()]);
        Hash(hasher.finish())
    }
}

} // verus!
