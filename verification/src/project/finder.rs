//! Helpers for subproject handling: paths to projects and tasks, and finding a project of a
//! project tree from a path.

use vstd::prelude::*;
use crate::identifier::{all_valid, Id, ProjectId, TaskId, TaskIdFactory, ID_SEPARATOR};
use crate::project::ProjectError;
use crate::text::{lemma_split_on_nonempty, split_on, split_str, views};

verus! {

/// The pieces of `s` between separators, as `str::split_terminator` gives them: like
/// `split`, but without the empty piece after a final separator.
pub open spec fn split_terminator(s: Seq<char>, sep: char) -> Seq<Seq<char>> {
    let p = split_on(s, sep);
    if p.len() > 0 && p.last().len() == 0 {
        p.drop_last()
    } else {
        p
    }
}

/// The components of a project path: a root component (`None`) when the path starts with
/// `:`, then the named components (`Some(name)`).
pub open spec fn project_path_components(s: Seq<char>) -> Seq<Option<Seq<char>>> {
    if s.len() > 0 && s[0] == ID_SEPARATOR {
        seq![None::<Seq<char>>] + split_terminator(s.drop_first(), ID_SEPARATOR).map_values(
            |p: Seq<char>| Some(p),
        )
    } else {
        split_terminator(s, ID_SEPARATOR).map_values(|p: Seq<char>| Some(p))
    }
}

/// The pieces of `s` between separators, without a final empty piece.
fn split_terminator_text(s: &str, sep: char) -> (r: Vec<String>)
    ensures
        views(r@) == split_terminator(s@, sep),
{
    let mut pieces = split_str(s, sep);
    proof {
        lemma_split_on_nonempty(s@, sep);
    }
    let n = pieces.len();
    if n > 0 && pieces[n - 1].unicode_len() == 0 {
        let ghost before = pieces@;
        pieces.pop();
        assert(views(pieces@) =~= views(before).drop_last());
    }
    pieces
}

/// Represents a path to a project
pub struct ProjectPath<'a> {
    path: &'a str,
}

impl<'a> View for ProjectPath<'a> {
    type V = Seq<char>;

    closed spec fn view(&self) -> Seq<char> {
        self.path@
    }
}

/// A component of a project path
#[derive(Debug)]
pub enum PathComponent {
    Root,
    Normal(String),
}

impl View for PathComponent {
    type V = Option<Seq<char>>;

    open spec fn view(&self) -> Option<Seq<char>> {
        match self {
            PathComponent::Root => None,
            PathComponent::Normal(s) => Some(s@),
        }
    }
}

impl Clone for PathComponent {
    fn clone(&self) -> (r: Self)
        ensures
            r@ == self@,
    {
        match self {
            PathComponent::Root => PathComponent::Root,
            PathComponent::Normal(s) => PathComponent::Normal(s.clone()),
        }
    }
}

/// The views of a sequence of components.
pub open spec fn component_views(s: Seq<PathComponent>) -> Seq<Option<Seq<char>>> {
    s.map_values(|c: PathComponent| c@)
}

impl<'a> ProjectPath<'a> {
    /// Create a new path from a string
    pub fn new(path: &'a str) -> (r: Self)
        ensures
            r@ == path@,
    {
        ProjectPath { path }
    }

    /// The text of the path.
    pub fn as_str(&self) -> (r: &'a str)
        ensures
            r@ == self@,
    {
        self.path
    }

    /// Checks whether this an empty path
    pub fn is_empty(&self) -> (r: bool)
        ensures
            r == (project_path_components(self@).len() == 0),
    {
        let comps = self.components();
        comps.len() == 0
    }

    /// Gets the components of the path
    pub fn components(&self) -> (r: PathComponents)
        ensures
            r.remaining() == project_path_components(self@),
            r.remaining().len() <= usize::MAX,
    {
        let n = self.path.unicode_len();
        let mut comps: Vec<PathComponent> = Vec::new();
        let rooted = n > 0 && self.path.get_char(0) == ID_SEPARATOR;
        let rest = if rooted {
            comps.push(PathComponent::Root);
            self.path.substring_char(1, n)
        } else {
            self.path
        };
        proof {
            if rooted {
                assert(rest@ =~= self@.drop_first());
            }
        }
        let pieces = split_terminator_text(rest, ID_SEPARATOR);
        let ghost start = comps@;
        let mut i: usize = 0;
        while i < pieces.len()
            invariant
                i <= pieces@.len(),
                comps@.len() == start.len() + i,
                component_views(comps@) == component_views(start) + views(pieces@).take(i as int).map_values(
                    |p: Seq<char>| Some(p),
                ),
            decreases pieces@.len() - i,
        {
            let ghost before = comps@;
            comps.push(PathComponent::Normal(pieces[i].clone()));
            assert(component_views(comps@) =~= component_views(before).push(Some(pieces@[i as int]@)));
            assert(views(pieces@).take(i + 1) =~= views(pieces@).take(i as int).push(pieces@[i as int]@));
            assert(views(pieces@).take(i + 1).map_values(|p: Seq<char>| Some(p)) =~= views(pieces@).take(
                i as int,
            ).map_values(|p: Seq<char>| Some(p)).push(Some(pieces@[i as int]@)));
            i = i + 1;
        }
        assert(views(pieces@).take(pieces@.len() as int) =~= views(pieces@));
        proof {
            if rooted {
                assert(component_views(start) =~= seq![None::<Seq<char>>]);
            } else {
                assert(component_views(start) =~= Seq::<Option<Seq<char>>>::empty());
            }
        }
        let total = comps.len();
        let r = PathComponents { comps, index: 0 };
        assert(r.remaining() =~= project_path_components(self@));
        assert(r.remaining().len() == total);
        r
    }
}

/// An owned version of the project path
#[derive(Debug)]
pub struct ProjectPathBuf {
    string: String,
}

impl ProjectPathBuf {
    /// creates a new project path
    pub fn new(path: String) -> (r: ProjectPathBuf)
        ensures
            r.as_str_spec() == path@,
    {
        ProjectPathBuf { string: path }
    }

    /// The text of the path.
    pub closed spec fn as_str_spec(self) -> Seq<char> {
        self.string@
    }

    /// The borrowed path.
    pub fn as_path(&self) -> (r: ProjectPath<'_>)
        ensures
            r@ == self.as_str_spec(),
    {
        ProjectPath::new(self.string.as_str())
    }

    /// The path of a project identifier, `:root:child`.
    pub fn from_project_id(id: &ProjectId) -> (r: ProjectPathBuf)
        ensures
            r.as_str_spec() == crate::identifier::display_parts(id@),
    {
        ProjectPathBuf { string: id.id().to_string() }
    }
}

/// An iterator over the components of the project path
#[derive(Debug)]
pub struct PathComponents {
    comps: Vec<PathComponent>,
    index: usize,
}

impl PathComponents {
    #[verifier::type_invariant]
    spec fn index_in_range(self) -> bool {
        self.index <= self.comps@.len()
    }

    /// The components not yet given out.
    pub closed spec fn remaining(self) -> Seq<Option<Seq<char>>> {
        component_views(self.comps@).skip(self.index as int)
    }

    /// The number of components not yet given out.
    pub fn len(&self) -> (r: usize)
        ensures
            r == self.remaining().len(),
    {
        proof {
            use_type_invariant(self);
        }
        if self.index < self.comps.len() {
            self.comps.len() - self.index
        } else {
            0
        }
    }

    /// The next component, if any.
    pub fn next(&mut self) -> (r: Option<PathComponent>)
        ensures
            old(self).remaining().len() == 0 ==> (r is None && final(self).remaining() == old(self).remaining()),
            old(self).remaining().len() > 0 ==> (r matches Some(c) && c@ == old(self).remaining()[0]
                && final(self).remaining() == old(self).remaining().drop_first()),
    {
        proof {
            use_type_invariant(&*self);
        }
        if self.index < self.comps.len() {
            let out = self.comps[self.index].clone();
            assert(component_views(self.comps@)[self.index as int] == self.comps@[self.index as int]@);
            self.index = self.index + 1;
            assert(self.remaining() =~= old(self).remaining().drop_first());
            Some(out)
        } else {
            None
        }
    }
}

/// Where `rsplitn(2, ':')` cuts a task path: the index of the last separator, or -1.
pub open spec fn last_separator(s: Seq<char>) -> int
    decreases s.len(),
{
    if s.len() == 0 {
        -1
    } else if s.last() == ID_SEPARATOR {
        s.len() - 1
    } else {
        last_separator(s.drop_last())
    }
}

proof fn lemma_last_separator(s: Seq<char>)
    ensures
        -1 <= last_separator(s) < s.len(),
        last_separator(s) >= 0 ==> s[last_separator(s)] == ID_SEPARATOR,
        forall|k: int| last_separator(s) < k < s.len() ==> s[k] != ID_SEPARATOR,
    decreases s.len(),
{
    if s.len() > 0 && s.last() != ID_SEPARATOR {
        lemma_last_separator(s.drop_last());
        assert forall|k: int| last_separator(s) < k < s.len() implies s[k] != ID_SEPARATOR by {
            if k < s.len() - 1 {
                assert(s.drop_last()[k] == s[k]);
            }
        }
    }
}

/// The task part of a task path: what follows its last separator.
pub open spec fn task_part(s: Seq<char>) -> Seq<char> {
    s.skip(last_separator(s) + 1)
}

/// The project part of a task path: what precedes its last separator (`:` when that is
/// nothing), or the empty path when there is no separator.
pub open spec fn project_part(s: Seq<char>) -> Seq<char> {
    let k = last_separator(s);
    if k < 0 {
        Seq::<char>::empty()
    } else if k == 0 {
        seq![ID_SEPARATOR]
    } else {
        s.take(k)
    }
}

/// Represents a path to a task
pub struct TaskPath<'a> {
    path: &'a str,
}

impl<'a> View for TaskPath<'a> {
    type V = Seq<char>;

    closed spec fn view(&self) -> Seq<char> {
        self.path@
    }
}

impl<'a> TaskPath<'a> {
    /// Create a new task path from a string
    pub fn new(path: &'a str) -> (r: Self)
        ensures
            r@ == path@,
    {
        TaskPath { path }
    }

    fn split(&self) -> (r: (ProjectPath<'a>, &'a str))
        ensures
            r.0@ == project_part(self@),
            r.1@ == task_part(self@),
    {
        let n = self.path.unicode_len();
        let mut k: usize = n;
        proof {
            lemma_last_separator(self@);
            assert(self@.take(n as int) =~= self@);
        }
        while k > 0
            invariant
                k <= n,
                n == self@.len(),
                last_separator(self@.take(k as int)) == last_separator(self@),
            decreases k,
        {
            if self.path.get_char(k - 1) == ID_SEPARATOR {
                assert(self@.take(k as int).last() == ID_SEPARATOR);
                let task = self.path.substring_char(k, n);
                let project = if k == 1 {
                    let root = ":";
                    proof {
                        reveal_strlit(":");
                        assert(root@ =~= seq![ID_SEPARATOR]);
                    }
                    ProjectPath::new(root)
                } else {
                    ProjectPath::new(self.path.substring_char(0, k - 1))
                };
                assert(task@ =~= task_part(self@));
                assert(project@ =~= project_part(self@));
                return (project, task);
            }
            assert(self@.take(k as int).drop_last() =~= self@.take(k - 1));
            k = k - 1;
        }
        assert(self@.take(0) =~= Seq::<char>::empty());
        let empty = "";
        proof {
            reveal_strlit("");
            assert(empty@ =~= Seq::<char>::empty());
        }
        assert(self@.skip(0) =~= self@);
        (ProjectPath::new(empty), self.path)
    }

    /// Gets the project part of the task path, if it exists.
    pub fn project(&self) -> (r: ProjectPath<'a>)
        ensures
            r@ == project_part(self@),
    {
        self.split().0
    }

    /// Gets the task component itself
    pub fn task(&self) -> (r: &'a str)
        ensures
            r@ == task_part(self@),
    {
        self.split().1
    }
}

/// An owned version of a [`TaskPath`](TaskPath).
#[derive(Debug)]
pub struct TaskPathBuf {
    src: String,
}

impl TaskPathBuf {
    /// Create a new task path buf from a string
    pub fn new(src: String) -> (r: Self)
        ensures
            r.as_str_spec() == src@,
    {
        Self { src }
    }

    /// The text of the path.
    pub closed spec fn as_str_spec(self) -> Seq<char> {
        self.src@
    }

    /// The borrowed path.
    pub fn as_path(&self) -> (r: TaskPath<'_>)
        ensures
            r@ == self.as_str_spec(),
    {
        TaskPath::new(self.src.as_str())
    }
}

/// The projects of a build, by identifier: the first is the root project, and every other
/// project is a child of another, its identifier the parent's with one more part.
#[derive(Debug)]
pub struct ProjectTree {
    projects: Vec<ProjectId>,
}

/// The identifiers of a sequence of projects.
pub open spec fn project_ids(s: Seq<ProjectId>) -> Seq<Seq<Seq<char>>> {
    s.map_values(|p: ProjectId| p@)
}

impl ProjectTree {
    /// The identifiers of the projects; the first is the root's.
    pub closed spec fn ids(self) -> Seq<Seq<Seq<char>>> {
        project_ids(self.projects@)
    }

    /// The tree has a root project with a one-part identifier.
    pub open spec fn wf(self) -> bool {
        self.ids().len() > 0 && self.ids()[0].len() == 1
    }

    /// A tree holding only the root project `root`.
    pub fn new(root: ProjectId) -> (r: Self)
        requires
            root@.len() == 1,
        ensures
            r.wf(),
            r.ids() == seq![root@],
    {
        let mut projects = Vec::new();
        projects.push(root);
        let r = ProjectTree { projects };
        assert(r.ids() =~= seq![root@]);
        r
    }

    /// The root project.
    pub fn root(&self) -> (r: &ProjectId)
        requires
            self.wf(),
        ensures
            r@ == self.ids()[0],
    {
        &self.projects[0]
    }

    /// Whether the tree holds the project `id`.
    pub fn contains(&self, id: &Id) -> (r: bool)
        ensures
            r == self.ids().contains(id@),
    {
        let mut i: usize = 0;
        while i < self.projects.len()
            invariant
                i <= self.projects@.len(),
                forall|k: int| 0 <= k < i ==> #[trigger] self.ids()[k] != id@,
            decreases self.projects@.len() - i,
        {
            if self.projects[i].id().same_as(id) {
                assert(self.ids()[i as int] == id@);
                return true;
            }
            i = i + 1;
        }
        false
    }

    /// Adds the child `name` of the project `parent`, unless it is there already; gives the
    /// child's identifier, or the error of an invalid name.
    pub fn add_subproject(&mut self, parent: &ProjectId, name: &str) -> (r: Result<ProjectId, crate::identifier::InvalidId>)
        requires
            old(self).wf(),
        ensures
            final(self).wf(),
            r is Ok <==> crate::identifier::all_valid(split_on(name@, ID_SEPARATOR)),
            r matches Ok(child) ==> (child@ == parent@ + split_on(name@, ID_SEPARATOR)
                && final(self).ids() == (if old(self).ids().contains(child@) {
                    old(self).ids()
                } else {
                    old(self).ids().push(child@)
                })),
            r is Err ==> final(self).ids() == old(self).ids(),
    {
        match parent.id().join(name) {
            Ok(id) => {
                if !self.contains(&id) {
                    let child = ProjectId(id.clone());
                    let ghost before = self.projects@;
                    self.projects.push(child);
                    assert(project_ids(self.projects@) =~= project_ids(before).push(id@));
                }
                Ok(ProjectId(id))
            },
            Err(e) => Err(e),
        }
    }

    /// The child `name` of the project `parent`, if the tree has it.
    pub fn get_subproject(&self, parent: &ProjectId, name: &str) -> (r: Option<ProjectId>)
        ensures
            r matches Some(child) ==> (crate::identifier::all_valid(split_on(name@, ID_SEPARATOR))
                && child@ == parent@ + split_on(name@, ID_SEPARATOR) && self.ids().contains(child@)),
            r is None ==> !crate::identifier::all_valid(split_on(name@, ID_SEPARATOR))
                || !self.ids().contains(parent@ + split_on(name@, ID_SEPARATOR)),
    {
        match parent.id().join(name) {
            Ok(id) => if self.contains(&id) {
                Some(ProjectId(id))
            } else {
                None
            },
            Err(_) => None,
        }
    }
}

/// One step of a search: a root component goes to the root; a named component at the root
/// that names the root stays; any other named component goes to that child, if it exists.
pub open spec fn find_step(
    ids: Seq<Seq<Seq<char>>>,
    ptr: Option<Seq<Seq<char>>>,
    c: Option<Seq<char>>,
) -> Option<Seq<Seq<char>>> {
    match c {
        None => Some(ids[0]),
        Some(n) => match ptr {
            None => None,
            Some(p) => if p == ids[0] && all_valid(split_on(n, ID_SEPARATOR)) && p == split_on(
                n,
                ID_SEPARATOR,
            ) {
                ptr
            } else if all_valid(split_on(n, ID_SEPARATOR)) && ids.contains(p + split_on(n, ID_SEPARATOR)) {
                Some(p + split_on(n, ID_SEPARATOR))
            } else {
                None
            },
        },
    }
}

/// Where a search from `ptr` through the components `comps` ends.
pub open spec fn walk(
    ids: Seq<Seq<Seq<char>>>,
    ptr: Option<Seq<Seq<char>>>,
    comps: Seq<Option<Seq<char>>>,
) -> Option<Seq<Seq<char>>>
    decreases comps.len(),
{
    if comps.len() == 0 {
        ptr
    } else {
        find_step(ids, walk(ids, ptr, comps.drop_last()), comps.last())
    }
}

/// Finds a sub project.
///
/// # Project Resolution
/// From a given *base* project, a path is resolved as follows:
/// - an empty path (`""`) refers to the base project.
/// - a path starting with a `":"` searches starting from the `root` project.
/// - A path starting with `:<root project name>` is equivalent to just `":"`.
/// - each component after that, which are seperated by a `":"`, is a child of the current search
#[derive(Debug)]
pub struct ProjectFinder {
    project: ProjectId,
}

impl ProjectFinder {
    /// Creates a new project finder
    pub fn new(project: &ProjectId) -> (r: Self)
        ensures
            r.base() == project@,
    {
        Self { project: project.clone() }
    }

    /// The project searches start from.
    pub closed spec fn base(self) -> Seq<Seq<char>> {
        self.project@
    }

    /// Tries to find a project relative to this one from a project path.
    pub fn find(&self, tree: &ProjectTree, path: &ProjectPath) -> (r: Option<ProjectId>)
        requires
            tree.wf(),
        ensures
            match r {
                Some(p) => walk(tree.ids(), Some(self.base()), project_path_components(path@)) == Some(p@),
                None => walk(tree.ids(), Some(self.base()), project_path_components(path@)) is None,
            },
    {
        let ghost ids = tree.ids();
        let mut comps = path.components();
        let ghost all = comps.remaining();
        let mut ptr: Option<ProjectId> = Some(self.project.clone());
        let mut done: usize = 0;
        while comps.len() > 0
            invariant
                tree.wf(),
                ids == tree.ids(),
                all == project_path_components(path@),
                all.len() <= usize::MAX,
                done <= all.len(),
                comps.remaining() == all.skip(done as int),
                match ptr {
                    Some(p) => walk(ids, Some(self.base()), all.take(done as int)) == Some(p@),
                    None => walk(ids, Some(self.base()), all.take(done as int)) is None,
                },
            decreases comps.remaining().len(),
        {
            let component = comps.next();
            let ghost c = all[done as int];
            assert(all.take(done + 1).drop_last() =~= all.take(done as int));
            assert(all.take(done + 1).last() == c);
            match component {
                Some(PathComponent::Root) => {
                    ptr = Some(tree.root().clone());
                },
                Some(PathComponent::Normal(normal)) => {
                    let stay = match &ptr {
                        Some(p) => {
                            let root = tree.root();
                            p.id().same_as(root.id()) && p.id().eq_str(normal.as_str())
                        },
                        None => false,
                    };
                    if !stay {
                        ptr = match &ptr {
                            Some(p) => tree.get_subproject(p, normal.as_str()),
                            None => None,
                        };
                    }
                },
                None => {},
            }
            done = done + 1;
        }
        assert(all.take(done as int) =~= all);
        ptr
    }
}

/// The search of the empty path ends at the base project.
pub proof fn empty_path_finds_base(ids: Seq<Seq<Seq<char>>>, base: Seq<Seq<char>>)
    ensures
        walk(ids, Some(base), project_path_components(Seq::<char>::empty())) == Some(base),
{
    assert(split_on(Seq::<char>::empty(), ID_SEPARATOR) == seq![Seq::<char>::empty()]);
    assert(split_terminator(Seq::<char>::empty(), ID_SEPARATOR) =~= Seq::<Seq<char>>::empty());
    assert(project_path_components(Seq::<char>::empty()) =~= Seq::<Option<Seq<char>>>::empty());
}

proof fn lemma_walk_append(
    ids: Seq<Seq<Seq<char>>>,
    ptr: Option<Seq<Seq<char>>>,
    a: Seq<Option<Seq<char>>>,
    b: Seq<Option<Seq<char>>>,
)
    ensures
        walk(ids, ptr, a + b) == walk(ids, walk(ids, ptr, a), b),
    decreases b.len(),
{
    if b.len() == 0 {
        assert(a + b =~= a);
    } else {
        lemma_walk_append(ids, ptr, a, b.drop_last());
        assert((a + b).drop_last() =~= a + b.drop_last());
        assert((a + b).last() == b.last());
    }
}

/// A path that starts with `:` finds the same project from every base: it searches from the
/// root.
pub proof fn rooted_path_ignores_base(
    ids: Seq<Seq<Seq<char>>>,
    a: Option<Seq<Seq<char>>>,
    b: Option<Seq<Seq<char>>>,
    rest: Seq<Option<Seq<char>>>,
)
    ensures
        walk(ids, a, seq![None::<Seq<char>>] + rest) == walk(ids, b, seq![None::<Seq<char>>] + rest),
{
    lemma_walk_append(ids, a, seq![None::<Seq<char>>], rest);
    lemma_walk_append(ids, b, seq![None::<Seq<char>>], rest);
    assert(seq![None::<Seq<char>>].drop_last() =~= Seq::<Option<Seq<char>>>::empty());
}

/// A search that names the root project right after the root component ends where the same
/// search without that name ends: `:root:rest` finds what `:rest` finds.
pub proof fn root_name_is_redundant(
    ids: Seq<Seq<Seq<char>>>,
    ptr: Option<Seq<Seq<char>>>,
    root_name: Seq<char>,
    rest: Seq<Option<Seq<char>>>,
)
    requires
        ids.len() > 0,
        ids[0] == split_on(root_name, ID_SEPARATOR),
        all_valid(split_on(root_name, ID_SEPARATOR)),
    ensures
        walk(ids, ptr, seq![None::<Seq<char>>, Some(root_name)] + rest)
            == walk(ids, ptr, seq![None::<Seq<char>>] + rest),
{
    lemma_walk_append(ids, ptr, seq![None::<Seq<char>>, Some(root_name)], rest);
    lemma_walk_append(ids, ptr, seq![None::<Seq<char>>], rest);
    assert(seq![None::<Seq<char>>, Some(root_name)].drop_last() =~= seq![None::<Seq<char>>]);
    assert(seq![None::<Seq<char>>].drop_last() =~= Seq::<Option<Seq<char>>>::empty());
}

/// A named step goes down to a child of the project it starts from: a search that ends at `q`
/// after the name `n`, starting the step at `p` (other than at the root naming the root
/// itself), ends at `p` with the parts of `n` added, which is a project of the tree.
pub proof fn named_step_goes_to_child(
    ids: Seq<Seq<Seq<char>>>,
    base: Seq<Seq<char>>,
    comps: Seq<Option<Seq<char>>>,
    n: Seq<char>,
    p: Seq<Seq<char>>,
    q: Seq<Seq<char>>,
)
    requires
        walk(ids, Some(base), comps) == Some(p),
        walk(ids, Some(base), comps.push(Some(n))) == Some(q),
        !(p == ids[0] && p == split_on(n, ID_SEPARATOR)),
    ensures
        q == p + split_on(n, ID_SEPARATOR),
        ids.contains(q),
        all_valid(split_on(n, ID_SEPARATOR)),
{
    assert(comps.push(Some(n)).drop_last() =~= comps);
}

/// A relative name that is not a child of the base project finds nothing: from a base that is
/// not the root named by `n`, the one-component path `n` finds no project unless the base with
/// the parts of `n` added is a project of the tree.
pub proof fn missing_child_finds_nothing(ids: Seq<Seq<Seq<char>>>, base: Seq<Seq<char>>, n: Seq<char>)
    requires
        !ids.contains(base + split_on(n, ID_SEPARATOR)),
        !(base == ids[0] && base == split_on(n, ID_SEPARATOR)),
    ensures
        walk(ids, Some(base), seq![Some(n)]) is None,
{
    let one = seq![Some(n)];
    assert(one.drop_last() =~= Seq::<Option<Seq<char>>>::empty());
    assert(walk(ids, Some(base), one.drop_last()) == Some(base));
    assert(one.last() == Some(n));
    assert(walk(ids, Some(base), one) == find_step(ids, Some(base), Some(n)));
}

/// The flag of the last registration of `id` among `entries`, if it was registered.
pub open spec fn lookup_flag(entries: Seq<(Seq<Seq<char>>, bool)>, id: Seq<Seq<char>>) -> Option<bool>
    decreases entries.len(),
{
    if entries.len() == 0 {
        None
    } else if entries.last().0 == id {
        Some(entries.last().1)
    } else {
        lookup_flag(entries.drop_last(), id)
    }
}

/// The registered tasks of a build: each task's identifier, and whether it only runs in its
/// own project (`only_current`), so that a search by name from a parent project stops at it.
pub struct TaskRegistry {
    entries: Vec<(TaskId, bool)>,
}

impl TaskRegistry {
    /// The registrations, in the order they were made.
    pub closed spec fn entries(self) -> Seq<(Seq<Seq<char>>, bool)> {
        self.entries@.map_values(|e: (TaskId, bool)| (e.0@, e.1))
    }

    /// Whether `id` is registered, and its `only_current` flag if so.
    pub open spec fn flag(self, id: Seq<Seq<char>>) -> Option<bool> {
        lookup_flag(self.entries(), id)
    }

    pub fn new() -> (r: Self)
        ensures
            r.entries().len() == 0,
            forall|id: Seq<Seq<char>>| #[trigger] r.flag(id) is None,
    {
        let r = TaskRegistry { entries: Vec::new() };
        assert(r.entries() =~= Seq::<(Seq<Seq<char>>, bool)>::empty());
        r
    }

    /// Registers the task `id`, unless it is registered already; says whether it was added.
    pub fn register(&mut self, id: TaskId, only_current: bool) -> (r: bool)
        ensures
            r == (old(self).flag(id@) is None),
            r ==> final(self).flag(id@) == Some(only_current),
            forall|other: Seq<Seq<char>>| other != id@ ==> #[trigger] final(self).flag(other) == old(self).flag(other),
            !r ==> final(self).flag(id@) == old(self).flag(id@),
    {
        if self.lookup(&id).is_some() {
            return false;
        }
        let ghost before = self.entries();
        let ghost key = id@;
        self.entries.push((id, only_current));
        assert(self.entries() =~= before.push((key, only_current)));
        assert(self.entries().drop_last() =~= before);
        true
    }

    /// The identifiers of the registered tasks, in the order they were registered.
    pub fn task_ids(&self) -> (r: Vec<TaskId>)
        ensures
            r@.len() == self.entries().len(),
            forall|i: int| 0 <= i < r@.len() ==> #[trigger] r@[i]@ == self.entries()[i].0,
    {
        let mut out: Vec<TaskId> = Vec::new();
        let mut i: usize = 0;
        while i < self.entries.len()
            invariant
                i <= self.entries@.len(),
                out@.len() == i,
                forall|k: int| 0 <= k < i ==> #[trigger] out@[k]@ == self.entries()[k].0,
            decreases self.entries@.len() - i,
        {
            out.push(self.entries[i].0.clone());
            i = i + 1;
        }
        out
    }

    /// The `only_current` flag of the task `id`, if it is registered.
    pub fn lookup(&self, id: &TaskId) -> (r: Option<bool>)
        ensures
            r == self.flag(id@),
    {
        let ghost es = self.entries();
        let mut k = self.entries.len();
        assert(es.take(k as int) =~= es);
        while k > 0
            invariant
                k <= es.len(),
                es == self.entries(),
                es.len() == self.entries@.len(),
                lookup_flag(es.take(k as int), id@) == lookup_flag(es, id@),
            decreases k,
        {
            assert(es.take(k as int).last() == es[k - 1]);
            assert(es[k - 1] == (self.entries@[k - 1].0@, self.entries@[k - 1].1));
            if self.entries[k - 1].0.id().same_as(id.id()) {
                return Some(self.entries[k - 1].1);
            }
            assert(es.take(k as int).drop_last() =~= es.take(k - 1));
            k = k - 1;
        }
        assert(es.take(0) =~= Seq::<(Seq<Seq<char>>, bool)>::empty());
        None
    }
}

/// Whether `x` is a child of `base`: `base` with one more part.
pub open spec fn is_child(x: Seq<Seq<char>>, base: Seq<Seq<char>>) -> bool {
    x.len() > 1 && x.drop_last() == base
}

/// The projects of `ids` that are children of `base`, in the order of `ids`.
pub open spec fn children_of(ids: Seq<Seq<Seq<char>>>, base: Seq<Seq<char>>) -> Seq<Seq<Seq<char>>>
    decreases ids.len(),
{
    if ids.len() == 0 {
        Seq::empty()
    } else if is_child(ids.last(), base) {
        children_of(ids.drop_last(), base).push(ids.last())
    } else {
        children_of(ids.drop_last(), base)
    }
}

/// The tasks named `task` found by a search from `base` and down its children, with `fuel`
/// levels of children left: the task of `base` itself, if registered; a registered task that
/// only runs in its own project ends the search there; otherwise the search goes on in each
/// child, in order.
pub open spec fn collect_tasks(
    ids: Seq<Seq<Seq<char>>>,
    tasks: TaskRegistry,
    base: Seq<Seq<char>>,
    task: Seq<char>,
    fuel: nat,
) -> Seq<Seq<Seq<char>>>
    decreases fuel, 1nat,
{
    let own = base + split_on(task, ID_SEPARATOR);
    let rest = collect_children(ids, tasks, children_of(ids, base), task, fuel);
    if all_valid(split_on(task, ID_SEPARATOR)) && tasks.flag(own) is Some {
        if tasks.flag(own) == Some(true) {
            seq![own]
        } else {
            seq![own] + rest
        }
    } else {
        rest
    }
}

/// The tasks found by searches from each project of `cs`, in order.
pub open spec fn collect_children(
    ids: Seq<Seq<Seq<char>>>,
    tasks: TaskRegistry,
    cs: Seq<Seq<Seq<char>>>,
    task: Seq<char>,
    fuel: nat,
) -> Seq<Seq<Seq<char>>>
    decreases fuel, 0nat, cs.len(),
{
    if fuel == 0 || cs.len() == 0 {
        Seq::empty()
    } else {
        collect_children(ids, tasks, cs.drop_last(), task, fuel)
            + collect_tasks(ids, tasks, cs.last(), task, (fuel - 1) as nat)
    }
}

/// The length of the longest identifier among `ids`.
pub open spec fn longest(ids: Seq<Seq<Seq<char>>>) -> nat
    decreases ids.len(),
{
    if ids.len() == 0 {
        0
    } else {
        let l = longest(ids.drop_last());
        if ids.last().len() > l { ids.last().len() } else { l }
    }
}

/// What a search for the task path `path` from the project `base` finds: `None` when the
/// project part names no project; otherwise the tasks found, none being an empty sequence.
/// With a project part, that project's task of the name, if registered; without one, the
/// tasks of the name found from `base` down its children (each level of children is one step
/// of fuel, and identifiers no longer than the longest give enough of it).
pub open spec fn find_tasks_spec(
    ids: Seq<Seq<Seq<char>>>,
    tasks: TaskRegistry,
    base: Seq<Seq<char>>,
    path: Seq<char>,
) -> Option<Seq<Seq<Seq<char>>>> {
    let comps = project_path_components(project_part(path));
    let task = task_part(path);
    match walk(ids, Some(base), comps) {
        None => None,
        Some(proj) => if comps.len() == 0 {
            Some(collect_tasks(ids, tasks, base, task, longest(ids)))
        } else {
            let own = proj + split_on(task, ID_SEPARATOR);
            if all_valid(split_on(task, ID_SEPARATOR)) && tasks.flag(own) is Some {
                Some(seq![own])
            } else {
                Some(Seq::empty())
            }
        },
    }
}

proof fn lemma_children_are_children(ids: Seq<Seq<Seq<char>>>, base: Seq<Seq<char>>)
    ensures
        forall|i: int| 0 <= i < children_of(ids, base).len() ==> is_child(#[trigger] children_of(ids, base)[i], base),
    decreases ids.len(),
{
    if ids.len() > 0 {
        lemma_children_are_children(ids.drop_last(), base);
        let prev = children_of(ids.drop_last(), base);
        if is_child(ids.last(), base) {
            assert forall|i: int| 0 <= i < prev.push(ids.last()).len() implies is_child(
                #[trigger] prev.push(ids.last())[i],
                base,
            ) by {
                if i < prev.len() {
                    assert(prev.push(ids.last())[i] == prev[i]);
                }
            }
        }
    }
}

proof fn lemma_prefix_trans(a: Seq<Seq<char>>, b: Seq<Seq<char>>, c: Seq<Seq<char>>)
    requires
        a.is_prefix_of(b),
        b.is_prefix_of(c),
    ensures
        a.is_prefix_of(c),
{
    assert forall|j: int| 0 <= j < a.len() implies c[j] == a[j] by {
        assert(a[j] == b.subrange(0, a.len() as int)[j]);
        assert(b[j] == c.subrange(0, b.len() as int)[j]);
    }
    assert(a =~= c.subrange(0, a.len() as int));
}

proof fn lemma_collect_tasks_under(
    ids: Seq<Seq<Seq<char>>>,
    tasks: TaskRegistry,
    base: Seq<Seq<char>>,
    task: Seq<char>,
    fuel: nat,
)
    ensures
        forall|i: int| 0 <= i < collect_tasks(ids, tasks, base, task, fuel).len()
            ==> base.is_prefix_of(#[trigger] collect_tasks(ids, tasks, base, task, fuel)[i]),
    decreases fuel, 1nat,
{
    let own = base + split_on(task, ID_SEPARATOR);
    assert(base =~= own.subrange(0, base.len() as int));
    let cs = children_of(ids, base);
    lemma_children_are_children(ids, base);
    assert forall|k: int| 0 <= k < cs.len() implies base.is_prefix_of(#[trigger] cs[k]) by {
        assert(is_child(cs[k], base));
        assert(base =~= cs[k].subrange(0, base.len() as int));
    }
    lemma_collect_children_under(ids, tasks, cs, base, task, fuel);
    let rest = collect_children(ids, tasks, cs, task, fuel);
    let r = collect_tasks(ids, tasks, base, task, fuel);
    if all_valid(split_on(task, ID_SEPARATOR)) && tasks.flag(own) is Some {
        if tasks.flag(own) != Some(true) {
            assert forall|i: int| 0 <= i < r.len() implies base.is_prefix_of(#[trigger] r[i]) by {
                if i > 0 {
                    assert(r[i] == rest[i - 1]);
                }
            }
        }
    }
}

proof fn lemma_collect_children_under(
    ids: Seq<Seq<Seq<char>>>,
    tasks: TaskRegistry,
    cs: Seq<Seq<Seq<char>>>,
    base: Seq<Seq<char>>,
    task: Seq<char>,
    fuel: nat,
)
    requires
        forall|k: int| 0 <= k < cs.len() ==> base.is_prefix_of(#[trigger] cs[k]),
    ensures
        forall|i: int| 0 <= i < collect_children(ids, tasks, cs, task, fuel).len()
            ==> base.is_prefix_of(#[trigger] collect_children(ids, tasks, cs, task, fuel)[i]),
    decreases fuel, 0nat, cs.len(),
{
    if fuel > 0 && cs.len() > 0 {
        let front = collect_children(ids, tasks, cs.drop_last(), task, fuel);
        let back = collect_tasks(ids, tasks, cs.last(), task, (fuel - 1) as nat);
        assert forall|k: int| 0 <= k < cs.drop_last().len() implies base.is_prefix_of(#[trigger] cs.drop_last()[k]) by {
            assert(cs.drop_last()[k] == cs[k]);
        }
        lemma_collect_children_under(ids, tasks, cs.drop_last(), base, task, fuel);
        lemma_collect_tasks_under(ids, tasks, cs.last(), task, (fuel - 1) as nat);
        assert(base.is_prefix_of(cs[cs.len() - 1]));
        let r = collect_children(ids, tasks, cs, task, fuel);
        assert forall|i: int| 0 <= i < r.len() implies base.is_prefix_of(#[trigger] r[i]) by {
            if i < front.len() {
                assert(r[i] == front[i]);
            } else {
                assert(r[i] == back[i - front.len()]);
                lemma_prefix_trans(base, cs.last(), back[i - front.len()]);
            }
        }
    }
}

/// A task path without a project part is searched for from the base project down: every task
/// it finds belongs to the base project or to a project under it, so the base's identifier
/// comes first in the identifier of every task found.
pub proof fn relative_search_stays_under_base(
    ids: Seq<Seq<Seq<char>>>,
    tasks: TaskRegistry,
    base: Seq<Seq<char>>,
    path: Seq<char>,
    found: Seq<Seq<Seq<char>>>,
)
    requires
        project_part(path).len() == 0,
        find_tasks_spec(ids, tasks, base, path) == Some(found),
    ensures
        forall|i: int| 0 <= i < found.len() ==> base.is_prefix_of(#[trigger] found[i]),
{
    empty_path_finds_base(ids, base);
    assert(project_part(path) =~= Seq::<char>::empty());
    lemma_collect_tasks_under(ids, tasks, base, task_part(path), longest(ids));
}

/// Similar to the project finder, but for tasks.
pub struct TaskFinder {
    project: ProjectId,
}

impl TaskFinder {
    /// Creates a new task finder from a given base project
    pub fn new(project: &ProjectId) -> (r: Self)
        ensures
            r.base() == project@,
    {
        Self { project: project.clone() }
    }

    /// The project searches start from.
    pub closed spec fn base(self) -> Seq<Seq<char>> {
        self.project@
    }

    /// Tries to find all tasks: the tasks that `path` names, searched for from the base
    /// project.
    ///
    /// # Error
    /// `ProjectNotFound` with the project part of the path, when it names no project.
    pub fn find(&self, tree: &ProjectTree, tasks: &TaskRegistry, path: &TaskPath) -> (r: Result<Option<Vec<TaskId>>, ProjectError>)
        requires
            tree.wf(),
        ensures
            match find_tasks_spec(tree.ids(), *tasks, self.base(), path@) {
                None => r matches Err(ProjectError::ProjectNotFound(p)) && p@ == project_part(path@),
                Some(found) => r matches Ok(o) && (if found.len() == 0 {
                    o is None
                } else {
                    o matches Some(v) && crate::project::requests::task_ids(v@) == found
                }),
            },
    {
        let (project, task) = path.split();
        let finder = ProjectFinder::new(&self.project);
        let proj = match finder.find(tree, &project) {
            Some(p) => p,
            None => {
                return Err(ProjectError::ProjectNotFound(project.as_str().to_owned()));
            },
        };
        if project.is_empty() {
            let fuel = longest_id(tree);
            let out = Self::collect(tree, tasks, &self.project, task, fuel);
            if out.len() == 0 {
                Ok(None)
            } else {
                Ok(Some(out))
            }
        } else {
            let factory = TaskIdFactory::new(proj);
            match factory.create(task) {
                Ok(id) => {
                    if tasks.lookup(&id).is_some() {
                        let ghost key = id@;
                        let out = vec![id];
                        assert(crate::project::requests::task_ids(out@) =~= seq![key]);
                        Ok(Some(out))
                    } else {
                        Ok(None)
                    }
                },
                Err(_) => Ok(None),
            }
        }
    }

    /// The tasks named `task` from `base` down, with `fuel` levels of children left.
    fn collect(tree: &ProjectTree, tasks: &TaskRegistry, base: &ProjectId, task: &str, fuel: usize) -> (r: Vec<TaskId>)
        ensures
            crate::project::requests::task_ids(r@) == collect_tasks(tree.ids(), *tasks, base@, task@, fuel as nat),
        decreases fuel, 1nat,
    {
        let mut out: Vec<TaskId> = Vec::new();
        let factory = TaskIdFactory::new(base.clone());
        if let Ok(task_id) = factory.create(task) {
            if let Some(only_current) = tasks.lookup(&task_id) {
                if only_current {
                    out.push(task_id);
                    assert(crate::project::requests::task_ids(out@) =~= seq![base@ + split_on(task@, ID_SEPARATOR)]);
                    return out;
                }
                out.push(task_id);
            }
        }
        let ghost own = out@;
        let rest = Self::collect_children(tree, tasks, base, task, fuel);
        out.append(&mut rest.clone());
        assert(crate::project::requests::task_ids(out@) =~= crate::project::requests::task_ids(own)
            + crate::project::requests::task_ids(rest@));
        out
    }

    /// The tasks named `task` found from each child of `base`, in order.
    fn collect_children(tree: &ProjectTree, tasks: &TaskRegistry, base: &ProjectId, task: &str, fuel: usize) -> (r: Vec<TaskId>)
        ensures
            crate::project::requests::task_ids(r@) == collect_children(
                tree.ids(), *tasks, children_of(tree.ids(), base@), task@, fuel as nat),
        decreases fuel, 0nat,
    {
        let ghost ids = tree.ids();
        let mut out: Vec<TaskId> = Vec::new();
        if fuel == 0 {
            assert(crate::project::requests::task_ids(out@) =~= Seq::<Seq<Seq<char>>>::empty());
            return out;
        }
        let mut i: usize = 0;
        assert(children_of(ids.take(0), base@) =~= Seq::<Seq<Seq<char>>>::empty());
        while i < tree.projects.len()
            invariant
                ids == tree.ids(),
                ids.len() == tree.projects@.len(),
                i <= tree.projects@.len(),
                fuel > 0,
                crate::project::requests::task_ids(out@) == collect_children(
                    ids, *tasks, children_of(ids.take(i as int), base@), task@, fuel as nat),
            decreases tree.projects@.len() - i,
        {
            let ghost prefix = ids.take(i as int);
            assert(ids.take(i + 1).drop_last() =~= prefix);
            assert(ids.take(i + 1).last() == ids[i as int]);
            assert(ids[i as int] == tree.projects@[i as int]@);
            let child = &tree.projects[i];
            proof {
                child.0.lemma_parts_nonempty();
            }
            let is_kid = match child.id().parent() {
                Some(p) => p.same_as(base.id()),
                None => false,
            };
            if is_kid {
                assert(is_child(ids[i as int], base@));
                let found = Self::collect(tree, tasks, child, task, fuel - 1);
                let ghost before = out@;
                out.append(&mut found.clone());
                assert(crate::project::requests::task_ids(out@) =~= crate::project::requests::task_ids(before)
                    + crate::project::requests::task_ids(found@));
                assert(children_of(ids.take(i + 1), base@)
                    =~= children_of(prefix, base@).push(ids[i as int]));
                let ghost cs = children_of(prefix, base@);
                assert(cs.push(ids[i as int]).drop_last() =~= cs);
                assert(collect_children(ids, *tasks, cs.push(ids[i as int]), task@, fuel as nat)
                    == collect_children(ids, *tasks, cs, task@, fuel as nat)
                        + collect_tasks(ids, *tasks, ids[i as int], task@, (fuel - 1) as nat));
            } else {
                assert(children_of(ids.take(i + 1), base@)
                    =~= children_of(prefix, base@));
            }
            i = i + 1;
        }
        assert(ids.take(i as int) =~= ids);
        out
    }
}

/// The length of the longest identifier of the tree.
fn longest_id(tree: &ProjectTree) -> (r: usize)
    ensures
        r == longest(tree.ids()),
{
    let ghost ids = tree.ids();
    let mut best: usize = 0;
    let mut i: usize = 0;
    assert(ids.take(0) =~= Seq::<Seq<Seq<char>>>::empty());
    while i < tree.projects.len()
        invariant
            ids == tree.ids(),
            ids.len() == tree.projects@.len(),
            i <= ids.len(),
            best == longest(ids.take(i as int)),
        decreases tree.projects@.len() - i,
    {
        assert(ids.take(i + 1).drop_last() =~= ids.take(i as int));
        assert(ids.take(i + 1).last() == ids[i as int]);
        assert(ids[i as int] == tree.projects@[i as int]@);
        let n = tree.projects[i].0.ancestors().len();
        if n > best {
            best = n;
        }
        i = i + 1;
    }
    assert(ids.take(i as int) =~= ids);
    best
}

} // verus!
