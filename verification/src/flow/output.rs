//! The outgoing variants of a project: artifacts by configuration name.

use vstd::prelude::*;
use crate::flow::shared::{made_from, Artifact, ConfigurableArtifact};
use crate::text::{compare_text, views};

verus! {

/// The outgoing variant handler
pub struct VariantHandler {
    default_variant: Option<String>,
    variant_map: Vec<(String, ConfigurableArtifact)>,
}

/// The names of a list of variants.
pub open spec fn variant_names(v: Seq<(String, ConfigurableArtifact)>) -> Seq<Seq<char>> {
    v.map_values(|e: (String, ConfigurableArtifact)| e.0@)
}

impl VariantHandler {
    /// The names of the variants, in the order they were added.
    pub closed spec fn names(self) -> Seq<Seq<char>> {
        variant_names(self.variant_map@)
    }

    /// The default variant that was set, if any.
    pub closed spec fn default_spec(self) -> Option<Seq<char>> {
        match self.default_variant {
            Some(d) => Some(d@),
            None => None,
        }
    }

    /// The artifact of the variant at position `i`.
    pub closed spec fn artifact_at(self, i: int) -> ConfigurableArtifact {
        self.variant_map@[i].1
    }

    /// No variant name is used twice.
    pub closed spec fn wf(self) -> bool {
        self.names().no_duplicates()
    }

    pub fn new() -> (r: Self)
        ensures
            r.wf(),
            r.names().len() == 0,
            r.default_spec() is None,
    {
        let r = Self { default_variant: None, variant_map: Vec::new() };
        assert(r.names() =~= Seq::<Seq<char>>::empty());
        r
    }

    /// Set the default outgoing variant
    pub fn set_default(&mut self, default: &str)
        ensures
            final(self).default_spec() == Some(default@),
            final(self).names() == old(self).names(),
            final(self).wf() == old(self).wf(),
    {
        self.default_variant = Some(default.to_owned());
    }

    /// Get the default variant name: the one set, or else the only variant's.
    ///
    /// A default must be set or exactly one variant added.
    pub fn default(&self) -> (r: String)
        requires
            self.default_spec() is Some || self.names().len() == 1,
        ensures
            r@ == match self.default_spec() {
                Some(d) => d,
                None => self.names()[0],
            },
    {
        match &self.default_variant {
            Some(d) => d.clone(),
            None => self.variant_map[0].0.clone(),
        }
    }

    fn find(&self, name: &str) -> (r: Option<usize>)
        ensures
            r matches Some(i) ==> i < self.names().len() && self.names()[i as int] == name@,
            r is None ==> !self.names().contains(name@),
    {
        let mut i: usize = 0;
        while i < self.variant_map.len()
            invariant
                i <= self.variant_map@.len(),
                forall|k: int| 0 <= k < i ==> #[trigger] self.names()[k] != name@,
            decreases self.variant_map@.len() - i,
        {
            if compare_text(self.variant_map[i].0.as_str(), name) == 0 {
                return Some(i);
            }
            i = i + 1;
        }
        None
    }

    /// Adds an artifact for a configuration, replacing the artifact it had.
    pub fn add(&mut self, variant: &str, artifact: ConfigurableArtifact)
        requires
            old(self).wf(),
        ensures
            final(self).wf(),
            final(self).default_spec() == old(self).default_spec(),
            old(self).names().contains(variant@) ==> final(self).names() == old(self).names(),
            !old(self).names().contains(variant@) ==> final(self).names() == old(self).names().push(variant@),
            exists|i: int| 0 <= i < final(self).names().len() && final(self).names()[i] == variant@
                && #[trigger] final(self).artifact_at(i) == artifact,
            forall|j: int| 0 <= j < old(self).names().len() && old(self).names()[j] != variant@
                ==> #[trigger] final(self).artifact_at(j) == old(self).artifact_at(j),
    {
        match self.find(variant) {
            Some(i) => {
                let name = self.variant_map[i].0.clone();
                let ghost before = self.variant_map@;
                self.variant_map.set(i, (name, artifact));
                assert(self.names() =~= variant_names(before));
                assert(self.artifact_at(i as int) == artifact);
            },
            None => {
                let ghost before = self.variant_map@;
                self.variant_map.push((variant.to_owned(), artifact));
                assert(self.names() =~= variant_names(before).push(variant@));
                assert(self.artifact_at(before.len() as int) == artifact);
                assert(self.names()[before.len() as int] == variant@);
            },
        }
    }

    /// Adds, for a configuration, the artifact made from `artifact` and then changed by
    /// `config`, replacing the artifact the configuration had.
    pub fn add_with<A: Artifact, F: FnOnce(&mut ConfigurableArtifact)>(&mut self, configuration: &str, artifact: A, config: F)
        requires
            old(self).wf(),
            forall|b: &mut ConfigurableArtifact| call_requires(config, (b,)),
        ensures
            final(self).wf(),
            final(self).default_spec() == old(self).default_spec(),
            old(self).names().contains(configuration@) ==> final(self).names() == old(self).names(),
            !old(self).names().contains(configuration@) ==> final(self).names() == old(self).names().push(
                configuration@,
            ),
            exists|b: &mut ConfigurableArtifact| {
                &&& made_from(*b, artifact)
                &&& call_ensures(config, (b,), ())
                &&& exists|i: int| 0 <= i < final(self).names().len() && final(self).names()[i] == configuration@
                    && #[trigger] final(self).artifact_at(i) == *final(b)
            },
            forall|j: int| 0 <= j < old(self).names().len() && old(self).names()[j] != configuration@
                ==> #[trigger] final(self).artifact_at(j) == old(self).artifact_at(j),
    {
        let mut configurable = ConfigurableArtifact::from_artifact(artifact);
        config(&mut configurable);
        self.add(configuration, configurable);
    }

    /// The artifact of a configuration, if it has one.
    pub fn get_artifact(&self, configuration: &str) -> (r: Option<ConfigurableArtifact>)
        ensures
            r is Some <==> self.names().contains(configuration@),
            r matches Some(a) ==> exists|i: int| 0 <= i < self.names().len() && self.names()[i] == configuration@
                && a.parts() == #[trigger] self.artifact_at(i).parts() && a.builders() == self.artifact_at(i).builders(),
    {
        match self.find(configuration) {
            Some(i) => {
                let a = self.variant_map[i].1.clone();
                assert(a.parts() == self.artifact_at(i as int).parts());
                Some(a)
            },
            None => None,
        }
    }
}

/// What is added under a name is what is read back under it: in a handler where no name is
/// used twice, an artifact found under the name of the artifact stored there has its parts.
pub proof fn added_artifact_reads_back(
    handler: VariantHandler,
    name: Seq<char>,
    i: int,
    found: ConfigurableArtifact,
)
    requires
        handler.wf(),
        0 <= i < handler.names().len(),
        handler.names()[i] == name,
        exists|j: int| 0 <= j < handler.names().len() && handler.names()[j] == name
            && found.parts() == #[trigger] handler.artifact_at(j).parts(),
    ensures
        found.parts() == handler.artifact_at(i).parts(),
{
    let j = choose|j: int| 0 <= j < handler.names().len() && handler.names()[j] == name
        && found.parts() == #[trigger] handler.artifact_at(j).parts();
    if j != i {
        assert(handler.names().no_duplicates());
        assert(handler.names()[i] == handler.names()[j]);
    }
}

} // verus!
