use vstd::prelude::*;

use crate::convert::spec_full_convert;
use crate::convert::CaseKind;
use dashmap::DashMap;

verus! {

/// The shared memoization table for full case conversions: a concurrent map
/// from (original key, target case) to the converted key. Entries are only
/// ever written with the full conversion of their own key, which is a pure
/// function of the key and the case, so a hit always equals a fresh
/// conversion and racing writers of the same pair store equal values.
#[verifier::external_body]
pub struct ConversionCache {
    map: DashMap<(String, CaseKind), String>,
}

impl ConversionCache {
    /// Relies on dashmap::DashMap::new: makes an empty concurrent map.
    #[verifier::external_body]
    pub fn new() -> ConversionCache {
        ConversionCache { map: DashMap::new() }
    }

    /// Relies on dashmap::DashMap::get: a hit returns a value that some call
    /// of `insert` below stored under an equal (key, case) pair. `insert`
    /// only ever stores the full conversion of its pair, a pure function of
    /// that pair, so every hit equals the fresh full conversion.
    #[verifier::external_body]
    pub fn get(&self, key: &str, case: CaseKind) -> (r: Option<String>)
        ensures
            r matches Some(v) ==> v@ == spec_full_convert(key@, case),
    {
        match self.map.get(&(key.to_string(), case)) {
            Some(entry) => Some(entry.value().clone()),
            None => None,
        }
    }

    /// Relies on dashmap::DashMap::insert: stores the value under the pair,
    /// replacing any previous one. The precondition keeps the table's
    /// invariant: only full conversions are ever stored.
    #[verifier::external_body]
    pub fn insert(&self, key: &str, case: CaseKind, value: String)
        requires
            value@ == spec_full_convert(key@, case),
    {
        let _ = self.map.insert((key.to_string(), case), value);
    }
}

} // verus!
