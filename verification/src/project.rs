//! Projects: how they are found from paths, the errors they report, and the tasks requested
//! of them.

pub mod error;
pub mod finder;
pub mod requests;

pub use error::ProjectError;

use vstd::prelude::*;
use crate::identifier::{
    all_valid, display_parts, first_invalid, path_components, ProjectId, TaskId, TaskIdFactory, ID_SEPARATOR,
};
use crate::lazy_evaluation::{Prop, PropCell, PropStore};
use crate::startup::initialization::descriptor::join_path;
use crate::text::{compare_text, split_on, views};
use crate::project::finder::TaskRegistry;
use crate::flow::output::VariantHandler;
use crate::flow::shared::ConfigurableArtifact;
use crate::plugins::extensions::{ExtensionAware, ExtensionContainer};

verus! {

/// Gives the identifiers of a project, its parent and its root.
pub trait GetProjectId {
    fn project_id(&self) -> ProjectId;

    fn parent_id(&self) -> Option<ProjectId>;

    fn root_id(&self) -> ProjectId;

    /// Get whether this project is a root: whether the identifier that `root_id` gives is the
    /// one that `project_id` gives.
    fn is_root(&self) -> (r: bool)
        ensures
            exists|root: ProjectId, project: ProjectId| call_ensures(Self::root_id, (self,), root)
                && call_ensures(Self::project_id, (self,), project)
                && r == (root@ == project@),
    {
        let root = self.root_id();
        let project = self.project_id();
        let r = root.id().same_as(project.id());
        assert(call_ensures(Self::root_id, (self,), root) && call_ensures(Self::project_id, (self,), project));
        r
    }
}

/// Creates the property that says where a project in `dir` builds its files: named `buildDir`
/// under the project's identifier, and set to the `build` directory inside `dir`. It is
/// refused when `buildDir` does not pass as an identifier.
pub fn build_dir_property(id: &ProjectId, dir: &str, store: &mut PropStore<String>) -> (r: Result<
    Prop<String>,
    ProjectError,
>)
    requires
        old(store)@.len() < usize::MAX,
    ensures
        r is Ok <==> all_valid(split_on("buildDir"@, ID_SEPARATOR)),
        r matches Ok(p) ==> {
            &&& p.id_parts() == id@ + split_on("buildDir"@, ID_SEPARATOR)
            &&& p.index() == old(store)@.len()
            &&& final(store)@.len() == old(store)@.len() + 1
            &&& forall|j: int| 0 <= j < old(store)@.len() ==> #[trigger] final(store)@[j] == old(store)@[j]
            &&& final(store)@[p.index() as int] matches PropCell::Value(v) && v@ == join_path(dir@, "build"@)
        },
        r matches Err(e) ==> {
            &&& e matches ProjectError::InvalidIdentifier(bad)
                && bad.0@ == split_on("buildDir"@, ID_SEPARATOR)[first_invalid(split_on("buildDir"@, ID_SEPARATOR))]
            &&& final(store)@ == old(store)@
        },
{
    let name = match id.id().join("buildDir") {
        Ok(name) => name,
        Err(e) => return Err(ProjectError::InvalidIdentifier(e)),
    };
    let mut build_dir = Prop::new(name, store);
    let path = crate::startup::initialization::descriptor::join(dir, "build");
    let _ = build_dir.set(path, store);
    Ok(build_dir)
}

/// The text of an optional value, as its view.
pub open spec fn option_view(o: Option<String>) -> Option<Seq<char>> {
    match o {
        Some(v) => Some(v@),
        None => None,
    }
}

/// The properties of a project, by their views.
pub open spec fn properties_of(ps: Seq<(String, Option<String>)>) -> Seq<(Seq<char>, Option<Seq<char>>)> {
    ps.map_values(|e: (String, Option<String>)| (e.0@, option_view(e.1)))
}

/// The position of the first property from `i` on whose key is `key`, or -1.
pub open spec fn key_index(ps: Seq<(Seq<char>, Option<Seq<char>>)>, key: Seq<char>, i: int) -> int
    decreases ps.len() - i,
{
    if i < 0 || i >= ps.len() {
        -1
    } else if ps[i].0 == key {
        i
    } else {
        key_index(ps, key, i + 1)
    }
}

/// A project: its identifier and directory, its root and parent, where it builds its files,
/// its tasks, variants, properties and default tasks, its subprojects, and its extensions.
pub struct Project {
    project_id: ProjectId,
    dir: String,
    root_id: ProjectId,
    root_dir: String,
    parent_id: Option<ProjectId>,
    is_root: bool,
    task_id_factory: TaskIdFactory,
    tasks: TaskRegistry,
    build_dir: Prop<String>,
    variants: VariantHandler,
    properties: Vec<(String, Option<String>)>,
    default_tasks: Vec<TaskId>,
    subprojects: Vec<Project>,
    extensions: ExtensionContainer,
}

/// Whether `p` is a project just made in `dir` with the identifier `id`, under the root
/// `root` (its identifier and directory; none for a root project) and the parent `parent`,
/// with its build directory property at `index` of the store.
pub open spec fn made_project(
    p: Project,
    dir: Seq<char>,
    id: Seq<Seq<char>>,
    root: Option<(Seq<Seq<char>>, Seq<char>)>,
    parent: Option<Seq<Seq<char>>>,
    index: nat,
) -> bool {
    &&& p.id_view() == id
    &&& p.dir_view() == dir
    &&& p.is_root_flag() == root is None
    &&& p.root_id_view() == (match root {
        Some(q) => q.0,
        None => id,
    })
    &&& p.root_dir_view() == (match root {
        Some(q) => q.1,
        None => dir,
    })
    &&& p.parent_view() == parent
    &&& p.factory_view() == id
    &&& p.build_dir_prop().id_parts() == id + split_on("buildDir"@, ID_SEPARATOR)
    &&& p.build_dir_prop().index() == index
    &&& p.tasks().entries().len() == 0
    &&& p.subprojects_view().len() == 0
    &&& p.properties_view().len() == 0
    &&& p.default_tasks_view().len() == 0
    &&& p.extensions_spec().wf() && p.extensions_spec().names().len() == 0
    &&& p.variants_spec().wf() && p.variants_spec().names().len() == 0
    &&& p.variants_spec().default_spec() is None
}

/// The store after a project in `dir` added its build directory property: one more cell, set
/// to the `build` directory inside `dir`.
pub open spec fn build_dir_added(before: Seq<PropCell<String>>, after: Seq<PropCell<String>>, dir: Seq<char>) -> bool {
    &&& after.len() == before.len() + 1
    &&& forall|j: int| 0 <= j < before.len() ==> #[trigger] after[j] == before[j]
    &&& after[before.len() as int] matches PropCell::Value(v) && v@ == join_path(dir, "build"@)
}

impl Project {
    pub closed spec fn id_view(self) -> Seq<Seq<char>> {
        self.project_id@
    }

    /// The directory of the project.
    pub closed spec fn dir_view(self) -> Seq<char> {
        self.dir@
    }

    pub closed spec fn root_id_view(self) -> Seq<Seq<char>> {
        self.root_id@
    }

    /// The directory of the root project.
    pub closed spec fn root_dir_view(self) -> Seq<char> {
        self.root_dir@
    }

    pub closed spec fn parent_view(self) -> Option<Seq<Seq<char>>> {
        match self.parent_id {
            Some(p) => Some(p@),
            None => None,
        }
    }

    pub closed spec fn is_root_flag(self) -> bool {
        self.is_root
    }

    /// The property that says where the project builds its files.
    pub closed spec fn build_dir_prop(self) -> Prop<String> {
        self.build_dir
    }

    pub closed spec fn tasks(self) -> TaskRegistry {
        self.tasks
    }

    /// The project of the identifiers that the task id factory makes.
    pub closed spec fn factory_view(self) -> Seq<Seq<char>> {
        self.task_id_factory.project()@
    }

    pub closed spec fn properties_view(self) -> Seq<(Seq<char>, Option<Seq<char>>)> {
        properties_of(self.properties@)
    }

    pub closed spec fn default_tasks_view(self) -> Seq<Seq<Seq<char>>> {
        self.default_tasks@.map_values(|t: TaskId| t@)
    }

    pub closed spec fn subprojects_view(self) -> Seq<Project> {
        self.subprojects@
    }

    pub closed spec fn extensions_spec(self) -> ExtensionContainer {
        self.extensions
    }

    pub closed spec fn variants_spec(self) -> VariantHandler {
        self.variants
    }

    /// Makes a project in `dir` with the identifier `id`, under the root `root` and the
    /// parent `parent`.
    fn make(
        dir: &str,
        id: ProjectId,
        root: Option<(ProjectId, String)>,
        parent: Option<ProjectId>,
        store: &mut PropStore<String>,
    ) -> (r: Result<Project, ProjectError>)
        requires
            old(store)@.len() < usize::MAX,
        ensures
            r is Ok <==> all_valid(split_on("buildDir"@, ID_SEPARATOR)),
            r matches Ok(p) ==> made_project(
                p,
                dir@,
                id@,
                match root {
                    Some(q) => Some((q.0@, q.1@)),
                    None => None,
                },
                match parent {
                    Some(q) => Some(q@),
                    None => None,
                },
                old(store)@.len(),
            ) && build_dir_added(old(store)@, final(store)@, dir@),
            r matches Err(e) ==> e is InvalidIdentifier && final(store)@ == old(store)@,
    {
        let build_dir = match build_dir_property(&id, dir, store) {
            Ok(p) => p,
            Err(e) => return Err(e),
        };
        let is_root = root.is_none();
        let (root_id, root_dir) = match root {
            Some(q) => q,
            None => (id.clone(), dir.to_owned()),
        };
        let p = Project {
            task_id_factory: TaskIdFactory::new(id.clone()),
            project_id: id,
            dir: dir.to_owned(),
            root_id,
            root_dir,
            parent_id: parent,
            is_root,
            tasks: TaskRegistry::new(),
            build_dir,
            variants: VariantHandler::new(),
            properties: Vec::new(),
            default_tasks: Vec::new(),
            subprojects: Vec::new(),
            extensions: ExtensionContainer::new(),
        };
        assert(p.properties_view() =~= Seq::<(Seq<char>, Option<Seq<char>>)>::empty());
        assert(p.default_tasks_view() =~= Seq::<Seq<Seq<char>>>::empty());
        Ok(p)
    }
}

impl Project {
    /// Creates a project in the directory `dir` with the identifier `id`: the root project
    /// when `root` is none, else a project under the root project `root`.
    pub fn in_dir_with_id_and_root(dir: &str, id: &str, root: Option<&Project>, store: &mut PropStore<String>) -> (r:
        Result<Project, ProjectError>)
        requires
            old(store)@.len() < usize::MAX,
        ensures
            r is Ok <==> all_valid(split_on(id@, ID_SEPARATOR)) && all_valid(split_on("buildDir"@, ID_SEPARATOR)),
            r matches Ok(p) ==> made_project(
                p,
                dir@,
                split_on(id@, ID_SEPARATOR),
                match root {
                    Some(q) => Some((q.id_view(), q.dir_view())),
                    None => None,
                },
                None,
                old(store)@.len(),
            ) && build_dir_added(old(store)@, final(store)@, dir@),
            r matches Err(e) ==> e is InvalidIdentifier && final(store)@ == old(store)@,
    {
        let id = match ProjectId::new(id) {
            Ok(id) => id,
            Err(e) => return Err(ProjectError::InvalidIdentifier(e)),
        };
        let root = match root {
            Some(q) => Some((q.project_id.clone(), q.dir.clone())),
            None => None,
        };
        Self::make(dir, id, root, None, store)
    }

    /// Creates a root project in the directory `dir` with the identifier `id`.
    pub fn in_dir_with_id(dir: &str, id: &str, store: &mut PropStore<String>) -> (r: Result<Project, ProjectError>)
        requires
            old(store)@.len() < usize::MAX,
        ensures
            r is Ok <==> all_valid(split_on(id@, ID_SEPARATOR)) && all_valid(split_on("buildDir"@, ID_SEPARATOR)),
            r matches Ok(p) ==> made_project(p, dir@, split_on(id@, ID_SEPARATOR), None, None, old(store)@.len())
                && build_dir_added(old(store)@, final(store)@, dir@),
            r matches Err(e) ==> e is InvalidIdentifier && final(store)@ == old(store)@,
    {
        Self::in_dir_with_id_and_root(dir, id, None, store)
    }

    /// Creates a root project in the directory `dir`, identified by the components of `dir`.
    pub fn in_dir(dir: &str, store: &mut PropStore<String>) -> (r: Result<Project, ProjectError>)
        requires
            old(store)@.len() < usize::MAX,
        ensures
            ({
                let comps = path_components(split_on(dir@, '/'));
                &&& r is Ok <==> comps.len() > 0 && all_valid(comps) && all_valid(
                    split_on("buildDir"@, ID_SEPARATOR),
                )
                &&& r matches Ok(p) ==> made_project(p, dir@, comps, None, None, old(store)@.len())
                    && build_dir_added(old(store)@, final(store)@, dir@)
                &&& r matches Err(e) ==> e is InvalidIdentifier && final(store)@ == old(store)@
            }),
    {
        let id = match ProjectId::from_path(dir) {
            Ok(id) => id,
            Err(e) => return Err(ProjectError::InvalidIdentifier(e)),
        };
        Self::make(dir, id, None, None, store)
    }

    /// Get the id of the project
    pub fn id(&self) -> (r: &ProjectId)
        ensures
            r@ == self.id_view(),
    {
        &self.project_id
    }

    /// Gets the property that says where the project builds its files.
    pub fn build_dir(&self) -> (r: Prop<String>)
        ensures
            r.id_parts() == self.build_dir_prop().id_parts(),
            r.index() == self.build_dir_prop().index(),
    {
        self.build_dir.clone()
    }

    /// Sets the build directory to `dir` inside the project's directory.
    pub fn set_build_dir(&mut self, dir: &str, store: &mut PropStore<String>)
        requires
            old(self).build_dir_prop().index() < old(store)@.len(),
        ensures
            *final(self) == *old(self),
            final(store)@.len() == old(store)@.len(),
            forall|j: int| 0 <= j < old(store)@.len() && j != old(self).build_dir_prop().index()
                ==> #[trigger] final(store)@[j] == old(store)@[j],
            final(store)@[old(self).build_dir_prop().index() as int] matches PropCell::Value(v)
                && v@ == join_path(old(self).dir_view(), dir@),
    {
        let path = crate::startup::initialization::descriptor::join(self.dir.as_str(), dir);
        let ghost path_view = path@;
        let _ = self.build_dir.set(path, store);
    }

    /// Gets a list of all registered tasks, in the order they were registered.
    pub fn registered_tasks(&self) -> (r: Vec<TaskId>)
        ensures
            r@.len() == self.tasks().entries().len(),
            forall|i: int| 0 <= i < r@.len() ==> #[trigger] r@[i]@ == self.tasks().entries()[i].0,
    {
        self.tasks.task_ids()
    }

    /// The directory of the project
    pub fn project_dir(&self) -> (r: String)
        ensures
            r@ == self.dir_view(),
    {
        self.dir.clone()
    }

    /// The directory of the root project
    pub fn root_dir(&self) -> (r: String)
        ensures
            r@ == self.root_dir_view(),
    {
        self.root_dir.clone()
    }

    /// Get access to the task container
    pub fn task_container(&self) -> (r: &TaskRegistry)
        ensures
            *r == self.tasks(),
    {
        &self.tasks
    }

    /// Get mutable access to the task container
    pub fn task_container_mut(&mut self) -> (r: &mut TaskRegistry)
        ensures
            *r == old(self).tasks(),
            final(self).tasks() == *final(r),
            final(self).id_view() == old(self).id_view(),
            final(self).subprojects_view() == old(self).subprojects_view(),
            final(self).build_dir_prop() == old(self).build_dir_prop(),
    {
        &mut self.tasks
    }

    /// Gets the factory for generating task ids
    pub fn task_id_factory(&self) -> (r: &TaskIdFactory)
        ensures
            r.project()@ == self.factory_view(),
    {
        &self.task_id_factory
    }
}

proof fn lemma_key_index_bounds(ps: Seq<(Seq<char>, Option<Seq<char>>)>, key: Seq<char>, i: int)
    requires
        0 <= i,
    ensures
        key_index(ps, key, i) == -1 || (i <= key_index(ps, key, i) < ps.len() && ps[key_index(ps, key, i)].0 == key),
        key_index(ps, key, i) >= 0 ==> forall|j: int| i <= j < key_index(ps, key, i) ==> #[trigger] ps[j].0 != key,
        key_index(ps, key, i) == -1 ==> forall|j: int| i <= j < ps.len() ==> #[trigger] ps[j].0 != key,
    decreases ps.len() - i,
{
    if i < ps.len() && ps[i].0 != key {
        lemma_key_index_bounds(ps, key, i + 1);
    }
}

proof fn lemma_key_index_first(ps: Seq<(Seq<char>, Option<Seq<char>>)>, key: Seq<char>, i: int, k: int)
    requires
        0 <= i <= k < ps.len(),
        ps[k].0 == key,
        forall|j: int| i <= j < k ==> #[trigger] ps[j].0 != key,
    ensures
        key_index(ps, key, i) == k,
    decreases k - i,
{
    if i < k {
        lemma_key_index_first(ps, key, i + 1, k);
    }
}

/// What is set as a property of a project is what reading the property gives, and every other
/// property keeps what it had.
pub proof fn property_read_after_write(
    before: Seq<(Seq<char>, Option<Seq<char>>)>,
    after: Seq<(Seq<char>, Option<Seq<char>>)>,
    key: Seq<char>,
    value: Option<Seq<char>>,
    other: Seq<char>,
)
    requires
        key_index(before, key, 0) >= 0 ==> after == before.update(key_index(before, key, 0), (key, value)),
        key_index(before, key, 0) < 0 ==> after == before.push((key, value)),
        other != key,
    ensures
        key_index(after, key, 0) >= 0 && after[key_index(after, key, 0)].1 == value,
        key_index(after, other, 0) >= 0 <==> key_index(before, other, 0) >= 0,
        key_index(before, other, 0) >= 0 ==> after[key_index(after, other, 0)] == before[key_index(before, other, 0)],
{
    lemma_key_index_bounds(before, key, 0);
    lemma_key_index_bounds(before, other, 0);
    let k = key_index(before, key, 0);
    if k >= 0 {
        assert forall|j: int| 0 <= j < k implies #[trigger] after[j].0 != key by {
            assert(before[j].0 != key);
        }
        lemma_key_index_first(after, key, 0, k);
    } else {
        assert forall|j: int| 0 <= j < before.len() implies #[trigger] after[j].0 != key by {
            assert(before[j].0 != key);
        }
        lemma_key_index_first(after, key, 0, before.len() as int);
    }
    let o = key_index(before, other, 0);
    if o >= 0 {
        assert forall|j: int| 0 <= j < o implies #[trigger] after[j].0 != other by {
            assert(before[j].0 != other);
            if k >= 0 && j == k {
            }
        }
        lemma_key_index_first(after, other, 0, o);
    } else {
        lemma_key_index_bounds(after, other, 0);
        if key_index(after, other, 0) >= 0 {
            let a = key_index(after, other, 0);
            if a < before.len() {
                assert(before[a].0 != other);
            }
        }
    }
}

impl Project {
    /// The properties set on the project, in the order they were first set.
    pub fn properties(&self) -> (r: &Vec<(String, Option<String>)>)
        ensures
            properties_of(r@) == self.properties_view(),
    {
        &self.properties
    }

    fn property_index(&self, key: &str) -> (r: Option<usize>)
        ensures
            match r {
                Some(k) => k == key_index(self.properties_view(), key@, 0) && k < self.properties@.len(),
                None => key_index(self.properties_view(), key@, 0) < 0,
            },
    {
        let ghost ps = self.properties_view();
        let mut i: usize = 0;
        while i < self.properties.len()
            invariant
                ps == self.properties_view(),
                ps.len() == self.properties@.len(),
                i <= ps.len(),
                key_index(ps, key@, 0) == key_index(ps, key@, i as int),
            decreases ps.len() - i,
        {
            assert(ps[i as int].0 == self.properties@[i as int].0@);
            if compare_text(self.properties[i].0.as_str(), key) == 0 {
                return Some(i);
            }
            i = i + 1;
        }
        None
    }

    /// Sets the property `key` to `value`, in place of what it had.
    pub fn set_property(&mut self, key: String, value: Option<String>)
        ensures
            key_index(old(self).properties_view(), key@, 0) >= 0 ==> final(self).properties_view()
                == old(self).properties_view().update(
                key_index(old(self).properties_view(), key@, 0),
                (key@, option_view(value)),
            ),
            key_index(old(self).properties_view(), key@, 0) < 0 ==> final(self).properties_view()
                == old(self).properties_view().push((key@, option_view(value))),
            final(self).same_but_properties(*old(self)),
    {
        let ghost before = self.properties@;
        let ghost entry = (key@, option_view(value));
        match self.property_index(key.as_str()) {
            Some(k) => {
                self.properties.set(k, (key, value));
                assert(properties_of(self.properties@) =~= properties_of(before).update(k as int, entry));
            },
            None => {
                self.properties.push((key, value));
                assert(properties_of(self.properties@) =~= properties_of(before).push(entry));
            },
        }
    }

    /// What the property `key` is set to, if it is set.
    pub fn get_property(&self, key: &str) -> (r: Option<&Option<String>>)
        ensures
            match r {
                Some(v) => key_index(self.properties_view(), key@, 0) >= 0 && option_view(*v)
                    == self.properties_view()[key_index(self.properties_view(), key@, 0)].1,
                None => key_index(self.properties_view(), key@, 0) < 0,
            },
    {
        match self.property_index(key) {
            Some(k) => Some(&self.properties[k].1),
            None => None,
        }
    }

    /// Whether the property `key` is set.
    pub fn has_property(&self, key: &str) -> (r: bool)
        ensures
            r == (key_index(self.properties_view(), key@, 0) >= 0),
    {
        self.property_index(key).is_some()
    }

    /// Gets the default tasks for this project.
    ///
    /// Default tasks are executed if no other tasks are provided.
    pub fn default_tasks(&self) -> (r: &Vec<TaskId>)
        ensures
            r@.map_values(|t: TaskId| t@) == self.default_tasks_view(),
    {
        &self.default_tasks
    }

    /// Set the default tasks for this project.
    pub fn set_default_tasks(&mut self, tasks: Vec<TaskId>)
        ensures
            final(self).default_tasks_view() == tasks@.map_values(|t: TaskId| t@),
            final(self).properties_view() == old(self).properties_view(),
            final(self).id_view() == old(self).id_view(),
            final(self).subprojects_view() == old(self).subprojects_view(),
    {
        self.default_tasks = tasks;
    }

    /// Get an outgoing variant
    pub fn variant(&self, variant: &str) -> (r: Option<ConfigurableArtifact>)
        ensures
            r is Some <==> self.variants_spec().names().contains(variant@),
            r matches Some(a) ==> exists|i: int| 0 <= i < self.variants_spec().names().len()
                && self.variants_spec().names()[i] == variant@ && a.parts() == #[trigger] self.variants_spec().artifact_at(
                i,
            ).parts() && a.builders() == self.variants_spec().artifact_at(i).builders(),
    {
        let r = self.variants.get_artifact(variant);
        proof {
            if r is Some {
                let a = r->Some_0;
                let i = choose|i: int| 0 <= i < self.variants.names().len() && self.variants.names()[i] == variant@
                    && a.parts() == #[trigger] self.variants.artifact_at(i).parts()
                    && a.builders() == self.variants.artifact_at(i).builders();
                assert(a.parts() == self.variants_spec().artifact_at(i).parts());
            }
        }
        r
    }

    /// The variants of this project
    pub fn variants(&self) -> (r: &VariantHandler)
        ensures
            *r == self.variants_spec(),
    {
        &self.variants
    }

    /// The mutable variants of this project
    pub fn variants_mut(&mut self) -> (r: &mut VariantHandler)
        ensures
            *r == old(self).variants_spec(),
            final(self).variants_spec() == *final(r),
            final(self).id_view() == old(self).id_view(),
            final(self).subprojects_view() == old(self).subprojects_view(),
    {
        &mut self.variants
    }

    /// The project as text: `Project` and its identifier.
    pub fn to_string(&self) -> (r: String)
        ensures
            r@ == "Project "@ + display_parts(self.id_view()),
    {
        let mut out = "Project ".to_owned();
        let id = self.project_id.to_string();
        out.append(id.as_str());
        proof {
            reveal_strlit("Project ");
        }
        out
    }

    /// Whether `other` is this project apart from its properties.
    pub closed spec fn same_but_properties(self, other: Project) -> bool {
        &&& self.project_id == other.project_id
        &&& self.dir == other.dir
        &&& self.root_id == other.root_id
        &&& self.root_dir == other.root_dir
        &&& self.parent_id == other.parent_id
        &&& self.is_root == other.is_root
        &&& self.task_id_factory == other.task_id_factory
        &&& self.tasks == other.tasks
        &&& self.build_dir == other.build_dir
        &&& self.variants == other.variants
        &&& self.default_tasks == other.default_tasks
        &&& self.subprojects == other.subprojects
        &&& self.extensions == other.extensions
    }
}

impl GetProjectId for Project {
    fn project_id(&self) -> (r: ProjectId)
        ensures
            r@ == self.id_view(),
    {
        self.project_id.clone()
    }

    fn parent_id(&self) -> (r: Option<ProjectId>)
        ensures
            match r {
                Some(p) => self.parent_view() == Some(p@),
                None => self.parent_view() is None,
            },
    {
        match &self.parent_id {
            Some(p) => Some(p.clone()),
            None => None,
        }
    }

    fn root_id(&self) -> (r: ProjectId)
        ensures
            r@ == self.root_id_view(),
    {
        self.root_id.clone()
    }
}

impl ExtensionAware for Project {
    fn extensions(&self) -> (r: &ExtensionContainer)
        ensures
            *r == self.extensions_spec(),
    {
        &self.extensions
    }

    fn extensions_mut(&mut self) -> (r: &mut ExtensionContainer)
        ensures
            *r == old(self).extensions_spec(),
            final(self).extensions_spec() == *final(r),
    {
        &mut self.extensions
    }
}

/// The position of the first subproject from `i` on whose identifier is `id`, or -1.
pub open spec fn sub_index(subs: Seq<Project>, id: Seq<Seq<char>>, i: int) -> int
    decreases subs.len() - i,
{
    if i < 0 || i >= subs.len() {
        -1
    } else if subs[i].id_view() == id {
        i
    } else {
        sub_index(subs, id, i + 1)
    }
}

proof fn lemma_sub_index_bounds(subs: Seq<Project>, id: Seq<Seq<char>>, i: int)
    requires
        0 <= i,
    ensures
        sub_index(subs, id, i) == -1 || (i <= sub_index(subs, id, i) < subs.len() && subs[sub_index(
            subs,
            id,
            i,
        )].id_view() == id),
    decreases subs.len() - i,
{
    if i < subs.len() && subs[i].id_view() != id {
        lemma_sub_index_bounds(subs, id, i + 1);
    }
}

impl Project {
    /// Gets the subprojects for this project, in the order they were created.
    pub fn subprojects(&self) -> (r: &Vec<Project>)
        ensures
            r@ == self.subprojects_view(),
    {
        &self.subprojects
    }

    fn subproject_index(&self, id: &ProjectId) -> (r: Option<usize>)
        ensures
            match r {
                Some(k) => k == sub_index(self.subprojects_view(), id@, 0) && k < self.subprojects@.len(),
                None => sub_index(self.subprojects_view(), id@, 0) < 0,
            },
    {
        let mut i: usize = 0;
        while i < self.subprojects.len()
            invariant
                i <= self.subprojects@.len(),
                sub_index(self.subprojects@, id@, 0) == sub_index(self.subprojects@, id@, i as int),
            decreases self.subprojects@.len() - i,
        {
            if self.subprojects[i].project_id.id().same_as(id.id()) {
                return Some(i);
            }
            i = i + 1;
        }
        None
    }

    /// The subproject named `name`: refused when `name` is not an identifier, and
    /// `NoIdentifiersFound` with the subproject's identifier when there is none.
    pub fn get_subproject(&self, name: &str) -> (r: Result<&Project, ProjectError>)
        ensures
            ({
                let id = self.id_view() + split_on(name@, ID_SEPARATOR);
                &&& !all_valid(split_on(name@, ID_SEPARATOR)) ==> (r matches Err(e) && e is InvalidIdentifier)
                &&& all_valid(split_on(name@, ID_SEPARATOR)) && sub_index(self.subprojects_view(), id, 0) >= 0
                    ==> (r matches Ok(p) && *p == self.subprojects_view()[sub_index(self.subprojects_view(), id, 0)])
                &&& all_valid(split_on(name@, ID_SEPARATOR)) && sub_index(self.subprojects_view(), id, 0) < 0
                    ==> (r matches Err(ProjectError::NoIdentifiersFound(m)) && m@ == display_parts(id))
            }),
    {
        let id = match self.project_id.id().join(name) {
            Ok(id) => ProjectId(id),
            Err(e) => return Err(ProjectError::InvalidIdentifier(e)),
        };
        match self.subproject_index(&id) {
            Some(k) => Ok(&self.subprojects[k]),
            None => Err(ProjectError::NoIdentifiersFound(id.to_string())),
        }
    }

    /// Whether `other` is this project apart from its subprojects.
    pub closed spec fn same_but_subprojects(self, other: Project) -> bool {
        &&& self.project_id == other.project_id
        &&& self.dir == other.dir
        &&& self.root_id == other.root_id
        &&& self.root_dir == other.root_dir
        &&& self.parent_id == other.parent_id
        &&& self.is_root == other.is_root
        &&& self.task_id_factory == other.task_id_factory
        &&& self.tasks == other.tasks
        &&& self.build_dir == other.build_dir
        &&& self.variants == other.variants
        &&& self.properties == other.properties
        &&& self.default_tasks == other.default_tasks
        &&& self.extensions == other.extensions
    }

    /// Configures the subproject `name` with `configure`, creating it first in `path` when
    /// there is none: under the same root as this project, with this project as its parent.
    /// What `configure` returns is returned.
    pub fn subproject_in<F: FnOnce(&mut Project) -> Result<(), ProjectError>>(
        &mut self,
        name: &str,
        path: &str,
        configure: F,
        store: &mut PropStore<String>,
    ) -> (r: Result<(), ProjectError>)
        requires
            old(store)@.len() < usize::MAX,
            forall|b: &mut Project| call_requires(configure, (b,)),
        ensures
            final(self).same_but_subprojects(*old(self)),
            ({
                let id = old(self).id_view() + split_on(name@, ID_SEPARATOR);
                let subs = old(self).subprojects_view();
                let k = sub_index(subs, id, 0);
                &&& !all_valid(split_on(name@, ID_SEPARATOR)) ==> (r matches Err(e) && e is InvalidIdentifier
                    && *final(self) == *old(self) && final(store)@ == old(store)@)
                &&& all_valid(split_on(name@, ID_SEPARATOR)) && k >= 0 ==> final(store)@ == old(store)@
                    && exists|b: &mut Project| {
                        &&& *b == subs[k]
                        &&& call_ensures(configure, (b,), r)
                        &&& final(self).subprojects_view() == subs.update(k, *final(b))
                    }
                &&& all_valid(split_on(name@, ID_SEPARATOR)) && k < 0 && !all_valid(
                    split_on("buildDir"@, ID_SEPARATOR),
                ) ==> (r matches Err(e) && e is InvalidIdentifier && *final(self) == *old(self)
                    && final(store)@ == old(store)@)
                &&& all_valid(split_on(name@, ID_SEPARATOR)) && k < 0 && all_valid(
                    split_on("buildDir"@, ID_SEPARATOR),
                ) ==> build_dir_added(old(store)@, final(store)@, path@) && exists|b: &mut Project| {
                    &&& made_project(
                        *b,
                        path@,
                        id,
                        Some((old(self).root_id_view(), old(self).root_dir_view())),
                        Some(old(self).id_view()),
                        old(store)@.len(),
                    )
                    &&& call_ensures(configure, (b,), r)
                    &&& final(self).subprojects_view() == subs.push(*final(b))
                }
            }),
    {
        let id = match self.project_id.id().join(name) {
            Ok(id) => ProjectId(id),
            Err(e) => return Err(ProjectError::InvalidIdentifier(e)),
        };
        proof {
            lemma_sub_index_bounds(self.subprojects@, id@, 0);
        }
        match self.subproject_index(&id) {
            Some(k) => {
                let ghost subs = self.subprojects@;
                let mut child = self.subprojects.remove(k);
                let r = configure(&mut child);
                self.subprojects.insert(k, child);
                assert(self.subprojects@ =~= subs.update(k as int, child));
                r
            },
            None => {
                let root = Some((self.root_id.clone(), self.root_dir.clone()));
                let parent = Some(self.project_id.clone());
                let mut child = match Self::make(path, id, root, parent, store) {
                    Ok(p) => p,
                    Err(e) => return Err(e),
                };
                let ghost subs = self.subprojects@;
                let r = configure(&mut child);
                self.subprojects.push(child);
                assert(self.subprojects@ =~= subs.push(child));
                r
            },
        }
    }

    /// Configures the subproject `name`, creating it first in the directory `name` inside this
    /// project's directory when there is none.
    pub fn subproject<F: FnOnce(&mut Project) -> Result<(), ProjectError>>(
        &mut self,
        name: &str,
        configure: F,
        store: &mut PropStore<String>,
    ) -> (r: Result<(), ProjectError>)
        requires
            old(store)@.len() < usize::MAX,
            forall|b: &mut Project| call_requires(configure, (b,)),
        ensures
            final(self).same_but_subprojects(*old(self)),
            ({
                let id = old(self).id_view() + split_on(name@, ID_SEPARATOR);
                let subs = old(self).subprojects_view();
                let k = sub_index(subs, id, 0);
                let path = join_path(old(self).dir_view(), name@);
                &&& !all_valid(split_on(name@, ID_SEPARATOR)) ==> (r matches Err(e) && e is InvalidIdentifier
                    && *final(self) == *old(self) && final(store)@ == old(store)@)
                &&& all_valid(split_on(name@, ID_SEPARATOR)) && k >= 0 ==> final(store)@ == old(store)@
                    && exists|b: &mut Project| {
                        &&& *b == subs[k]
                        &&& call_ensures(configure, (b,), r)
                        &&& final(self).subprojects_view() == subs.update(k, *final(b))
                    }
                &&& all_valid(split_on(name@, ID_SEPARATOR)) && k < 0 && !all_valid(
                    split_on("buildDir"@, ID_SEPARATOR),
                ) ==> (r matches Err(e) && e is InvalidIdentifier && *final(self) == *old(self)
                    && final(store)@ == old(store)@)
                &&& all_valid(split_on(name@, ID_SEPARATOR)) && k < 0 && all_valid(
                    split_on("buildDir"@, ID_SEPARATOR),
                ) ==> build_dir_added(old(store)@, final(store)@, path) && exists|b: &mut Project| {
                    &&& made_project(
                        *b,
                        path,
                        id,
                        Some((old(self).root_id_view(), old(self).root_dir_view())),
                        Some(old(self).id_view()),
                        old(store)@.len(),
                    )
                    &&& call_ensures(configure, (b,), r)
                    &&& final(self).subprojects_view() == subs.push(*final(b))
                }
            }),
    {
        let path = crate::startup::initialization::descriptor::join(self.dir.as_str(), name);
        self.subproject_in(name, path.as_str(), configure, store)
    }
}

} // verus!
