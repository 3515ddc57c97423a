use vstd::prelude::*;
use crate::text::str_eq;

verus! {

/// One published release belonging to a mod. Rows live in the
/// separately-owned versions store and are keyed by the owning mod's id.
#[derive(Debug)]
pub struct ModVersion {
    /// Identifier of this release, e.g. a version string.
    pub id: String,
    /// Id of the mod this release belongs to.
    pub mod_id: String,
}

impl Clone for ModVersion {
    fn clone(&self) -> (res: Self)
        ensures
            res == *self,
    {
        ModVersion { id: self.id.clone(), mod_id: self.mod_id.clone() }
    }
}

/// One base row of the primary mods table: everything about a mod except
/// its version history.
#[derive(Debug)]
pub struct ModRecord {
    pub id: String,
    pub repository: String,
    pub latest_version: String,
    pub validated: bool,
}

impl Clone for ModRecord {
    fn clone(&self) -> (res: Self)
        ensures
            res == *self,
    {
        ModRecord {
            id: self.id.clone(),
            repository: self.repository.clone(),
            latest_version: self.latest_version.clone(),
            validated: self.validated,
        }
    }
}

/// A registered package: a base row merged with its ordered version history.
#[derive(Debug)]
pub struct Mod {
    /// Globally unique identifier, also used as the filesystem-safe upload key.
    pub id: String,
    /// Source location of the mod.
    pub repository: String,
    /// Intended to name the id of some element of `versions`.
    pub latest_version: String,
    /// Whether the mod has been validated.
    pub validated: bool,
    /// Ordered version history, populated from the versions store.
    pub versions: Vec<ModVersion>,
}

impl Mod {
    /// `latest_version` names some entry of `versions`. This consistency is
    /// an application-level convention, not enforced at construction; callers
    /// that want it enforced check it with `check_latest_version_listed`.
    pub open spec fn latest_version_listed(self) -> bool {
        exists|i: int|
            0 <= i < self.versions@.len() && (#[trigger] self.versions@[i]).id@
                == self.latest_version@
    }

    /// Decides `latest_version_listed`.
    pub fn check_latest_version_listed(&self) -> (r: bool)
        ensures
            r == self.latest_version_listed(),
    {
        let mut i: usize = 0;
        while i < self.versions.len()
            invariant
                i <= self.versions@.len(),
                forall|k: int|
                    0 <= k < i ==> (#[trigger] self.versions@[k]).id@ != self.latest_version@,
            decreases self.versions@.len() - i,
        {
            if str_eq(self.versions[i].id.as_str(), self.latest_version.as_str()) {
                return true;
            }
            i += 1;
        }
        false
    }
}

/// The merged record `m` agrees with base row `r` on every base field and
/// carries exactly the version list `vs`.
pub open spec fn merged_from(m: Mod, r: ModRecord, vs: Seq<ModVersion>) -> bool {
    &&& m.id@ == r.id@
    &&& m.repository@ == r.repository@
    &&& m.latest_version@ == r.latest_version@
    &&& m.validated == r.validated
    &&& m.versions@ == vs
}

} // verus!
