//! Module manifests.

use crate::table::{is_strictly_sorted, named_views, strictly_sorted};
use crate::text::texts;
use vstd::prelude::*;

verus! {

/// A module's manifest: what it provides, slot by slot, sorted by slot name.
#[derive(Debug)]
pub struct Manifest {
    pub description: String,
    pub provides: Vec<(String, ProvidesEntry)>,
    pub metadata: Metadata,
}

/// A document that holds a description and nothing else.
#[derive(Debug)]
pub struct YamlData {
    pub description: String,
}

/// One slot of a manifest: the interface it provides.
#[derive(Debug)]
pub struct ProvidesEntry {
    pub interface: String,
    pub description: String,
}

/// Who wrote a module, and under which license.
#[derive(Debug)]
pub struct Metadata {
    pub license: String,
    pub authors: Vec<String>,
}

/// The mathematical value of a [`Manifest`].
pub struct ManifestView {
    pub description: Seq<char>,
    pub provides: Seq<(Seq<char>, ProvidesEntryView)>,
    pub metadata: MetadataView,
}

/// The mathematical value of a [`YamlData`].
pub struct YamlDataView {
    pub description: Seq<char>,
}

/// The mathematical value of a [`ProvidesEntry`].
pub struct ProvidesEntryView {
    pub interface: Seq<char>,
    pub description: Seq<char>,
}

/// The mathematical value of a [`Metadata`].
pub struct MetadataView {
    pub license: Seq<char>,
    pub authors: Seq<Seq<char>>,
}

impl View for ProvidesEntry {
    type V = ProvidesEntryView;

    open spec fn view(&self) -> ProvidesEntryView {
        ProvidesEntryView { interface: self.interface@, description: self.description@ }
    }
}

impl View for Metadata {
    type V = MetadataView;

    open spec fn view(&self) -> MetadataView {
        MetadataView {
            license: self.license@,
            authors: texts(self.authors@),
        }
    }
}

impl View for YamlData {
    type V = YamlDataView;

    open spec fn view(&self) -> YamlDataView {
        YamlDataView { description: self.description@ }
    }
}

impl View for Manifest {
    type V = ManifestView;

    open spec fn view(&self) -> ManifestView {
        ManifestView {
            description: self.description@,
            provides: named_views(self.provides@),
            metadata: self.metadata@,
        }
    }
}

/// Whether a manifest is well formed: its slots stand in the order of
/// their names, each name once, and none has an empty name.
pub open spec fn manifest_well_formed(manifest: ManifestView) -> bool {
    &&& strictly_sorted(manifest.provides)
    &&& forall|i: int|
        0 <= i < manifest.provides.len() ==> (#[trigger] manifest.provides[i]).0.len() > 0
}

impl Manifest {
    /// Whether the manifest is well formed.
    pub fn is_well_formed(&self) -> (r: bool)
        ensures
            r == manifest_well_formed(self@),
    {
        if !is_strictly_sorted(&self.provides) {
            return false;
        }
        let ghost provides = self@.provides;
        let mut i: usize = 0;
        while i < self.provides.len()
            invariant
                i <= self.provides.len(),
                provides == named_views(self.provides@),
                forall|k: int| 0 <= k < i ==> (#[trigger] provides[k]).0.len() > 0,
            decreases self.provides.len() - i,
        {
            assert(provides[i as int].0 == self.provides@[i as int].0@);
            if self.provides[i].0.as_str().is_empty() {
                return false;
            }
            i += 1;
        }
        true
    }
}

} // verus!
