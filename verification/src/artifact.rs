//! Backup artifacts: one stored snapshot object, as the storage listing
//! reports it.

use vstd::prelude::*;
use crate::timestamp::Timestamp;

verus! {

/// One backup snapshot in the remote store: its object name and the
/// creation time that the store's listing reports for it.
pub struct Artifact {
    pub name: String,
    pub created_at: Timestamp,
}

/// The mathematical content of an [`Artifact`]: the name as a character
/// sequence, beside the creation time.
pub ghost struct ArtifactModel {
    pub name: Seq<char>,
    pub created_at: Timestamp,
}

impl View for Artifact {
    type V = ArtifactModel;

    open spec fn view(&self) -> ArtifactModel {
        ArtifactModel { name: self.name@, created_at: self.created_at }
    }
}

/// The models of a sequence of artifacts, element by element.
pub open spec fn views_of(s: Seq<Artifact>) -> Seq<ArtifactModel> {
    s.map_values(|a: Artifact| a@)
}

} // verus!
