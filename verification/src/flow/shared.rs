//! Artifacts: the files a task produces, by name, classifier, extension and type.

use vstd::prelude::*;
use crate::identifier::TaskId;
use crate::logging::file_name_of;
use crate::text::has_char;

verus! {

/// The file of an artifact: `name[-classifier].extension`.
pub open spec fn artifact_file(name: Seq<char>, classifier: Option<Seq<char>>, extension: Seq<char>) -> Seq<char> {
    name + match classifier {
        Some(c) => seq!['-'] + c,
        None => Seq::<char>::empty(),
    } + seq!['.'] + extension
}

/// Represents the artifact output of some task
pub trait Artifact {
    /// The classifier of the artifact, if any
    fn classifier(&self) -> Option<String>;

    /// The extension of this published artifact
    fn extension(&self) -> String;

    /// The name of the artifact
    fn name(&self) -> String;

    /// The type of the artifact.
    fn artifact_type(&self) -> String;

    /// Gets the file for this artifact: `[name][-[classifier]].[extension]`, of what `name`,
    /// `classifier` and `extension` give.
    fn file(&self) -> (r: String)
        ensures
            exists|n: String, c: Option<String>, e: String|
                call_ensures(Self::name, (self,), n)
                && call_ensures(Self::classifier, (self,), c)
                && call_ensures(Self::extension, (self,), e)
                && r@ == artifact_file(n@, (match c { Some(t) => Some(t@), None => None }), e@),
    {
        let name = self.name();
        let mut out = name.clone();
        let classifier = self.classifier();
        match &classifier {
            Some(c) => {
                out.append("-");
                out.append(c.as_str());
            },
            None => {},
        }
        out.append(".");
        let ext = self.extension();
        out.append(ext.as_str());
        proof {
            reveal_strlit("-");
            reveal_strlit(".");
        }
        assert(out@ =~= artifact_file(name@, (match classifier { Some(t) => Some(t@), None => None }), ext@));
        out
    }
}

/// A configurable artifact.
pub struct ConfigurableArtifact {
    classifier: Option<String>,
    name: String,
    extension: String,
    artifact_type: Option<String>,
    built_by: Vec<TaskId>,
}

/// Where a file name is cut into a name and an extension: the index of its last `.`, or -1.
pub open spec fn last_dot(s: Seq<char>) -> int
    decreases s.len(),
{
    if s.len() == 0 {
        -1
    } else if s.last() == '.' {
        s.len() - 1
    } else {
        last_dot(s.drop_last())
    }
}

proof fn lemma_last_dot(s: Seq<char>)
    ensures
        -1 <= last_dot(s) < s.len(),
        last_dot(s) >= 0 ==> s[last_dot(s)] == '.',
    decreases s.len(),
{
    if s.len() > 0 && s.last() != '.' {
        lemma_last_dot(s.drop_last());
    }
}

/// Whether a path names a file with an extension, as `Path::extension` sees it: the file name
/// has a `.` after its first character.
pub open spec fn has_extension(path: Seq<char>) -> bool {
    file_name_of(path) matches Some(f) && last_dot(f) > 0
}

/// Whether `r` has the classifier, name, extension and type that `a` gives, and no builders.
pub open spec fn made_from<A: Artifact>(r: ConfigurableArtifact, a: A) -> bool {
    &&& r.builders().len() == 0
    &&& exists|c: Option<String>, n: String, e: String, t: String| {
        &&& call_ensures(A::classifier, (&a,), c)
        &&& call_ensures(A::name, (&a,), n)
        &&& call_ensures(A::extension, (&a,), e)
        &&& call_ensures(A::artifact_type, (&a,), t)
        &&& r.parts() == (
            match c {
                Some(x) => Some(x@),
                None => None,
            },
            n@,
            e@,
            Some(t@),
        )
    }
}

impl ConfigurableArtifact {
    /// The classifier, name, extension and type of the artifact.
    pub closed spec fn parts(self) -> (Option<Seq<char>>, Seq<char>, Seq<char>, Option<Seq<char>>) {
        (
            match self.classifier {
                Some(c) => Some(c@),
                None => None,
            },
            self.name@,
            self.extension@,
            match self.artifact_type {
                Some(t) => Some(t@),
                None => None,
            },
        )
    }

    /// The tasks that build the artifact.
    pub closed spec fn builders(self) -> Seq<Seq<Seq<char>>> {
        self.built_by@.map_values(|t: TaskId| t@)
    }

    pub fn new(name: String, extension: String) -> (r: Self)
        ensures
            r.parts() == (None::<Seq<char>>, name@, extension@, None::<Seq<char>>),
            r.builders().len() == 0,
    {
        let r = Self { classifier: None, name, extension, artifact_type: None, built_by: Vec::new() };
        assert(r.builders() =~= Seq::<Seq<Seq<char>>>::empty());
        r
    }

    /// An artifact with the classifier, name, extension and type that `artifact` gives.
    pub fn from_artifact<A: Artifact>(artifact: A) -> (r: Self)
        ensures
            made_from(r, artifact),
    {
        let classifier = artifact.classifier();
        let name = artifact.name();
        let extension = artifact.extension();
        let artifact_type = artifact.artifact_type();
        assert(call_ensures(A::classifier, (&artifact,), classifier));
        assert(call_ensures(A::name, (&artifact,), name));
        assert(call_ensures(A::extension, (&artifact,), extension));
        assert(call_ensures(A::artifact_type, (&artifact,), artifact_type));
        let ghost (c, n, e, t) = (classifier, name, extension, artifact_type);
        let r = Self {
            classifier,
            name,
            extension,
            artifact_type: Some(artifact_type),
            built_by: Vec::new(),
        };
        assert(r.builders() =~= Seq::<Seq<Seq<char>>>::empty());
        assert(r.parts() == (
            match c {
                Some(x) => Some(x@),
                None => None,
            },
            n@,
            e@,
            Some(t@),
        ));
        r
    }

    /// The artifact of a file: its name is the file name up to its last `.`, its extension
    /// what follows.
    pub fn from_path(path: &str) -> (r: Self)
        requires
            has_extension(path@),
        ensures
            ({
                let f = file_name_of(path@).unwrap();
                r.parts() == (None::<Seq<char>>, f.take(last_dot(f)), f.skip(last_dot(f) + 1), None::<Seq<char>>)
            }),
            r.builders().len() == 0,
    {
        let file = match crate::logging::file_name(path) {
            Some(f) => f,
            None => {
                assert(false);
                String::new()
            },
        };
        let n = file.unicode_len();
        let mut k: usize = n;
        proof {
            lemma_last_dot(file@);
            assert(file@.take(n as int) =~= file@);
        }
        while k > 0
            invariant
                k <= n,
                n == file@.len(),
                last_dot(file@.take(k as int)) == last_dot(file@),
                last_dot(file@) > 0,
                file_name_of(path@) == Some(file@),
            decreases k,
        {
            if file.get_char(k - 1) == '.' {
                assert(file@.take(k as int).last() == '.');
                let name = file.substring_char(0, k - 1).to_owned();
                let extension = file.substring_char(k, n).to_owned();
                assert(extension@ =~= file@.skip(last_dot(file@) + 1));
                return Self::new(name, extension);
            }
            assert(file@.take(k as int).drop_last() =~= file@.take(k - 1));
            k = k - 1;
        }
        assert(file@.take(0) =~= Seq::<char>::empty());
        assert(false);
        Self::new(String::new(), String::new())
    }

    /// Set the name of the artifact
    pub fn set_name(&mut self, name: &str)
        ensures
            final(self).parts() == (old(self).parts().0, name@, old(self).parts().2, old(self).parts().3),
            final(self).builders() == old(self).builders(),
    {
        self.name = name.to_owned();
    }

    /// Set the classifier of the artifact
    pub fn set_classifier(&mut self, classifier: &str)
        ensures
            final(self).parts() == (Some(classifier@), old(self).parts().1, old(self).parts().2, old(self).parts().3),
            final(self).builders() == old(self).builders(),
    {
        self.classifier = Some(classifier.to_owned());
    }

    /// Set the extension of the artifact
    pub fn set_extension(&mut self, extension: &str)
        ensures
            final(self).parts() == (old(self).parts().0, old(self).parts().1, extension@, old(self).parts().3),
            final(self).builders() == old(self).builders(),
    {
        self.extension = extension.to_owned();
    }

    /// Set the artifact's type
    pub fn set_artifact_type(&mut self, artifact_type: &str)
        ensures
            final(self).parts() == (old(self).parts().0, old(self).parts().1, old(self).parts().2, Some(artifact_type@)),
            final(self).builders() == old(self).builders(),
    {
        self.artifact_type = Some(artifact_type.to_owned());
    }

    /// Register a task that builds this artifact
    pub fn built_by(&mut self, task: TaskId)
        ensures
            final(self).parts() == old(self).parts(),
            final(self).builders() == old(self).builders().push(task@),
    {
        let ghost before = self.built_by@;
        self.built_by.push(task);
        assert(self.builders() =~= before.map_values(|t: TaskId| t@).push(self.built_by@.last()@));
    }

    /// The classifier of the artifact, if any
    pub fn classifier(&self) -> (r: Option<String>)
        ensures
            match r {
                Some(c) => self.parts().0 == Some(c@),
                None => self.parts().0 is None,
            },
    {
        match &self.classifier {
            Some(c) => Some(c.clone()),
            None => None,
        }
    }

    /// The extension of the artifact
    pub fn extension(&self) -> (r: String)
        ensures
            r@ == self.parts().2,
    {
        self.extension.clone()
    }

    /// The name of the artifact
    pub fn name(&self) -> (r: String)
        ensures
            r@ == self.parts().1,
    {
        self.name.clone()
    }

    /// The type of the artifact: the one set, or else the extension.
    pub fn artifact_type(&self) -> (r: String)
        ensures
            r@ == match self.parts().3 {
                Some(t) => t,
                None => self.parts().2,
            },
    {
        match &self.artifact_type {
            Some(t) => t.clone(),
            None => self.extension.clone(),
        }
    }

    /// The file of the artifact: `[name][-[classifier]].[extension]`.
    pub fn file(&self) -> (r: String)
        ensures
            r@ == artifact_file(self.parts().1, self.parts().0, self.parts().2),
    {
        let mut out = self.name.clone();
        match &self.classifier {
            Some(c) => {
                out.append("-");
                out.append(c.as_str());
            },
            None => {},
        }
        out.append(".");
        out.append(self.extension.as_str());
        proof {
            reveal_strlit("-");
            reveal_strlit(".");
        }
        assert(out@ =~= artifact_file(self.parts().1, self.parts().0, self.parts().2));
        out
    }
}

impl Artifact for ConfigurableArtifact {
    fn classifier(&self) -> (r: Option<String>)
        ensures
            match r {
                Some(c) => self.parts().0 == Some(c@),
                None => self.parts().0 is None,
            },
    {
        ConfigurableArtifact::classifier(self)
    }

    fn extension(&self) -> (r: String)
        ensures
            r@ == self.parts().2,
    {
        ConfigurableArtifact::extension(self)
    }

    fn name(&self) -> (r: String)
        ensures
            r@ == self.parts().1,
    {
        ConfigurableArtifact::name(self)
    }

    fn artifact_type(&self) -> (r: String)
        ensures
            r@ == match self.parts().3 {
                Some(t) => t,
                None => self.parts().2,
            },
    {
        ConfigurableArtifact::artifact_type(self)
    }
}

impl Clone for ConfigurableArtifact {
    fn clone(&self) -> (r: Self)
        ensures
            r.parts() == self.parts(),
            r.builders() == self.builders(),
    {
        let mut built_by: Vec<TaskId> = Vec::new();
        let mut i: usize = 0;
        while i < self.built_by.len()
            invariant
                i <= self.built_by@.len(),
                built_by@.map_values(|t: TaskId| t@) == self.built_by@.take(i as int).map_values(|t: TaskId| t@),
            decreases self.built_by@.len() - i,
        {
            let ghost before = built_by@;
            let c = self.built_by[i].clone();
            built_by.push(c);
            assert(built_by@.map_values(|t: TaskId| t@) =~= before.map_values(|t: TaskId| t@).push(c@));
            assert(self.built_by@.take(i + 1).map_values(|t: TaskId| t@) =~= self.built_by@.take(i as int).map_values(
                |t: TaskId| t@,
            ).push(self.built_by@[i as int]@));
            i = i + 1;
        }
        assert(self.built_by@.take(i as int) =~= self.built_by@);
        let classifier = match &self.classifier {
            Some(c) => Some(c.clone()),
            None => None,
        };
        let artifact_type = match &self.artifact_type {
            Some(t) => Some(t.clone()),
            None => None,
        };
        ConfigurableArtifact {
            classifier,
            name: self.name.clone(),
            extension: self.extension.clone(),
            artifact_type,
            built_by,
        }
    }
}

} // verus!
