//! Project descriptors and the graph of the projects that a build declares.
//!
//! Paths are `/`-separated texts, compared as `std::path::Path` compares them on Unix: by
//! their components, a rooted path differing from one that is not.

use vstd::prelude::*;
use petgraph::graph::{Graph, NodeIndex};
use petgraph::Directed;
use crate::identifier::{join_parts, join_text, path_components, path_parts};
use crate::text::{compare_text, push_char, split_on, views};

verus! {

/// Whether a `/`-separated path starts at the root.
pub open spec fn rooted(p: Seq<char>) -> bool {
    p.len() > 0 && p[0] == '/'
}

/// The components of a `/`-separated path after its root, as `Path::components` gives them.
pub open spec fn components(p: Seq<char>) -> Seq<Seq<char>> {
    path_components(split_on(p, '/'))
}

/// `Path::ends_with` for a path of root `ra` and components `ca`, and one of root `rb` and
/// components `cb`: the components of the second are the last ones of the first, and a
/// rooted second path covers the whole of the first.
pub open spec fn parts_end_with(ra: bool, ca: Seq<Seq<char>>, rb: bool, cb: Seq<Seq<char>>) -> bool {
    &&& cb.len() <= ca.len()
    &&& ca.subrange(ca.len() - cb.len(), ca.len() as int) == cb
    &&& rb ==> (ra && ca.len() == cb.len())
}

/// Two paths are equal as paths: the same root and the same components.
pub open spec fn same_path(a: Seq<char>, b: Seq<char>) -> bool {
    rooted(a) == rooted(b) && components(a) == components(b)
}

/// `Path::join` on Unix: a rooted `name` replaces `dir`; otherwise `name` follows `dir`, with
/// a separator between them unless `dir` is empty or already ends with one.
pub open spec fn join_path(dir: Seq<char>, name: Seq<char>) -> Seq<char> {
    if rooted(name) {
        name
    } else if dir.len() > 0 && dir.last() != '/' {
        dir + seq!['/'] + name
    } else {
        dir + name
    }
}

/// `Path::file_name`: the last component, unless it is `.` or `..` or there is none.
pub open spec fn file_name_of(p: Seq<char>) -> Option<Seq<char>> {
    let c = components(p);
    if c.len() > 0 && c.last() != seq!['.'] && c.last() != seq!['.', '.'] {
        Some(c.last())
    } else {
        None
    }
}

/// The parent of a path that has components, as a path: the same root and all components but
/// the last.
pub open spec fn parent_text(p: Seq<char>) -> Seq<char> {
    let head = if rooted(p) { seq!['/'] } else { Seq::<char>::empty() };
    head + join_parts(components(p).drop_last(), '/')
}

fn path_rooted(p: &str) -> (r: bool)
    ensures
        r == rooted(p@),
{
    p.unicode_len() > 0 && p.get_char(0) == '/'
}

pub(crate) fn join(dir: &str, name: &str) -> (r: String)
    ensures
        r@ == join_path(dir@, name@),
{
    if path_rooted(name) {
        return name.to_owned();
    }
    let mut out = dir.to_owned();
    let n = dir.unicode_len();
    if n > 0 && dir.get_char(n - 1) != '/' {
        push_char(&mut out, '/');
    }
    out.append(name);
    out
}

fn is_text(s: &String, t: &str) -> (r: bool)
    ensures
        r == (s@ == t@),
{
    compare_text(s.as_str(), t) == 0
}

/// The last component of `p`, when it names a file or directory.
fn file_name(p: &str) -> (r: Option<String>)
    ensures
        r matches Some(s) ==> file_name_of(p@) == Some(s@),
        r is None ==> file_name_of(p@) is None,
{
    let parts = path_parts(p);
    let n = parts.len();
    if n == 0 {
        return None;
    }
    let last = &parts[n - 1];
    proof {
        reveal_strlit(".");
        reveal_strlit("..");
        assert(views(parts@).last() == last@);
        assert("."@ =~= seq!['.']);
        assert(".."@ =~= seq!['.', '.']);
    }
    if is_text(last, ".") || is_text(last, "..") {
        None
    } else {
        let name = last.clone();
        assert(name@ == last@);
        Some(name)
    }
}

/// Whether the components `cb`, with root `rb`, end the components `ca`, with root `ra`.
fn parts_match(ra: bool, ca: &Vec<String>, rb: bool, cb: &Vec<String>) -> (r: bool)
    ensures
        r == parts_end_with(ra, views(ca@), rb, views(cb@)),
{
    let n = ca.len();
    let m = cb.len();
    if m > n {
        return false;
    }
    if rb && !(ra && n == m) {
        return false;
    }
    let ghost a = views(ca@);
    let ghost b = views(cb@);
    let mut k: usize = 0;
    while k < m
        invariant
            a == views(ca@),
            b == views(cb@),
            n == a.len(),
            m == b.len(),
            m <= n,
            k <= m,
            forall|j: int| 0 <= j < k ==> #[trigger] a[n - m + j] == b[j],
        decreases m - k,
    {
        if compare_text(ca[n - m + k].as_str(), cb[k].as_str()) != 0 {
            assert(a[n - m + k] != b[k as int]);
            assert(a.subrange(n - m, n as int)[k as int] == a[n - m + k]);
            return false;
        }
        k = k + 1;
    }
    assert forall|j: int| 0 <= j < m implies #[trigger] a.subrange(n - m, n as int)[j] == b[j] by {
        assert(a[n - m + j] == b[j]);
    }
    assert(a.subrange(n - m, n as int) =~= b);
    true
}

/// Where the build file of a project is: a known file, or only the project's directory.
#[derive(Debug, Clone)]
enum ProjectDescriptorLocation {
    KnownFile(String),
    KnownDirectory(String),
}

/// A project descriptor is used to define projects.
#[derive(Debug, Clone)]
pub struct ProjectDescriptor {
    build_file: ProjectDescriptorLocation,
    name: String,
}

/// What a descriptor holds: the project's name, whether its build file is known, and the path
/// of that file, or of the project's directory when the file is not known.
pub type DescriptorView = (Seq<char>, bool, Seq<char>);

impl View for ProjectDescriptor {
    type V = DescriptorView;

    closed spec fn view(&self) -> DescriptorView {
        match &self.build_file {
            ProjectDescriptorLocation::KnownFile(f) => (self.name@, true, f@),
            ProjectDescriptorLocation::KnownDirectory(d) => (self.name@, false, d@),
        }
    }
}

/// Whether the descriptor `d` is for a project in a directory that ends with `path`: the
/// parent of its build file, when that is known, or its directory.
pub open spec fn descriptor_matches(d: DescriptorView, path: Seq<char>) -> bool {
    if d.1 {
        let c = components(d.2);
        if c.len() > 0 {
            parts_end_with(rooted(d.2), c.drop_last(), rooted(path), components(path))
        } else {
            components(path).len() == 0 && !rooted(path)
        }
    } else {
        parts_end_with(rooted(d.2), components(d.2), rooted(path), components(path))
    }
}

/// A descriptor that knows only its directory gets the build file `file_name` in it.
pub open spec fn with_file_name(d: DescriptorView, file_name: Seq<char>) -> DescriptorView {
    if d.1 {
        d
    } else {
        (d.0, true, join_path(d.2, file_name))
    }
}

/// Two descriptors are equal: the same name, and the same kind of location at the same path.
pub open spec fn same_descriptor(a: DescriptorView, b: DescriptorView) -> bool {
    a.0 == b.0 && a.1 == b.1 && same_path(a.2, b.2)
}

/// The text of a descriptor: its name, then, in brackets, where its build file is, as `Debug`
/// writes the location.
pub open spec fn descriptor_text(d: DescriptorView) -> Seq<char> {
    d.0 + " ("@ + (if d.1 {
        "KnownFile("@
    } else {
        "KnownDirectory("@
    }) + crate::text::debug_text_of(d.2) + "))"@
}

impl ProjectDescriptor {
    /// The descriptor as text: `name (KnownFile("path"))`, or `KnownDirectory` while only the
    /// directory is known.
    pub fn to_string(&self) -> (r: String)
        ensures
            r@ == descriptor_text(self@),
    {
        let mut out = self.name.clone();
        out.append(" (");
        match &self.build_file {
            ProjectDescriptorLocation::KnownFile(f) => {
                out.append("KnownFile(");
                let t = crate::text::debug_str(f.as_str());
                out.append(t.as_str());
            },
            ProjectDescriptorLocation::KnownDirectory(d) => {
                out.append("KnownDirectory(");
                let t = crate::text::debug_str(d.as_str());
                out.append(t.as_str());
            },
        }
        out.append("))");
        out
    }

    /// creates a new project descriptor
    fn new(name: String, build_file: ProjectDescriptorLocation) -> (r: Self)
        ensures
            r.build_file == build_file,
            r.name == name,
    {
        Self { build_file, name }
    }

    /// if this only has the directory known, this sets the file name
    fn set_file_name(&mut self, file_name: &str)
        ensures
            final(self)@ == with_file_name(old(self)@, file_name@),
    {
        let file_path = if let ProjectDescriptorLocation::KnownDirectory(dir) = &self.build_file {
            join(dir.as_str(), file_name)
        } else {
            return;
        };
        self.build_file = ProjectDescriptorLocation::KnownFile(file_path);
    }

    /// Gets the name of the project
    pub fn name(&self) -> (r: &str)
        ensures
            r@ == self@.0,
    {
        self.name.as_str()
    }

    /// Sets the name of the project
    pub fn set_name(&mut self, name: &str)
        ensures
            final(self)@ == (name@, old(self)@.1, old(self)@.2),
    {
        self.name = name.to_owned();
    }

    /// Gets the build file associated with this project, if known
    pub fn build_file(&self) -> (r: Option<&str>)
        ensures
            r is Some <==> self@.1,
            r matches Some(f) ==> f@ == self@.2,
    {
        match &self.build_file {
            ProjectDescriptorLocation::KnownFile(f) => Some(f.as_str()),
            ProjectDescriptorLocation::KnownDirectory(_) => None,
        }
    }

    /// Gets the directory this project is contained in: the parent of the build file, when
    /// that is known, or the known directory.
    ///
    /// A known build file must have a parent.
    pub fn directory(&self) -> (r: String)
        requires
            self@.1 ==> components(self@.2).len() > 0,
        ensures
            self@.1 ==> r@ == parent_text(self@.2),
            !self@.1 ==> r@ == self@.2,
    {
        match &self.build_file {
            ProjectDescriptorLocation::KnownFile(file) => {
                let mut parts = path_parts(file.as_str());
                let ghost all = views(parts@);
                parts.pop();
                assert(views(parts@) =~= all.drop_last());
                let body = join_text(&parts, '/');
                let mut out = String::new();
                if path_rooted(file.as_str()) {
                    push_char(&mut out, '/');
                }
                out.append(body.as_str());
                out
            },
            ProjectDescriptorLocation::KnownDirectory(dir) => dir.clone(),
        }
    }

    /// Checks if this project descriptor is contained in this directory
    pub fn matches_dir(&self, path: &str) -> (r: bool)
        ensures
            r == descriptor_matches(self@, path@),
    {
        let wanted = path_parts(path);
        let wanted_root = path_rooted(path);
        match &self.build_file {
            ProjectDescriptorLocation::KnownFile(f) => {
                let mut parts = path_parts(f.as_str());
                if parts.len() > 0 {
                    let ghost all = views(parts@);
                    parts.pop();
                    assert(views(parts@) =~= all.drop_last());
                    parts_match(path_rooted(f.as_str()), &parts, wanted_root, &wanted)
                } else {
                    wanted.len() == 0 && !wanted_root
                }
            },
            ProjectDescriptorLocation::KnownDirectory(d) => {
                let parts = path_parts(d.as_str());
                parts_match(path_rooted(d.as_str()), &parts, wanted_root, &wanted)
            },
        }
    }

    /// Whether this descriptor equals `other`: the same name, and the same kind of location at
    /// the same path.
    fn same_as(&self, other: &ProjectDescriptor) -> (r: bool)
        ensures
            r == same_descriptor(self@, other@),
    {
        if compare_text(self.name.as_str(), other.name.as_str()) != 0 {
            return false;
        }
        let (a, known_a) = match &self.build_file {
            ProjectDescriptorLocation::KnownFile(f) => (f, true),
            ProjectDescriptorLocation::KnownDirectory(d) => (d, false),
        };
        let (b, known_b) = match &other.build_file {
            ProjectDescriptorLocation::KnownFile(f) => (f, true),
            ProjectDescriptorLocation::KnownDirectory(d) => (d, false),
        };
        if known_a != known_b {
            return false;
        }
        let ra = path_rooted(a.as_str());
        let rb = path_rooted(b.as_str());
        let ca = path_parts(a.as_str());
        let cb = path_parts(b.as_str());
        assert(views(ca@).len() == ca@.len() && views(cb@).len() == cb@.len());
        if ra != rb || ca.len() != cb.len() {
            return false;
        }
        let matched = parts_match(ra, &ca, rb, &cb);
        assert(views(ca@).subrange(0, views(ca@).len() as int) =~= views(ca@));
        matched
    }
}

/// `petgraph::graph::Graph`, carried through as an opaque value.
#[verifier::external_type_specification]
#[verifier::external_body]
#[verifier::reject_recursive_types(N)]
#[verifier::reject_recursive_types(E)]
#[verifier::reject_recursive_types(Ty)]
#[verifier::reject_recursive_types(Ix)]
pub struct ExGraph<N, E, Ty, Ix>(Graph<N, E, Ty, Ix>);

/// `petgraph::Directed`, the marker of a graph whose edges have a direction.
#[verifier::external_type_specification]
#[verifier::external_body]
pub struct ExDirected(Directed);

/// The nodes of a project graph, by index.
pub uninterp spec fn graph_nodes(g: Graph<ProjectDescriptor, (), Directed, usize>) -> Seq<ProjectDescriptor>;

/// The edges of a project graph, as (source, target) pairs of node indices, in the order in
/// which they were added.
pub uninterp spec fn graph_edges(g: Graph<ProjectDescriptor, (), Directed, usize>) -> Seq<(usize, usize)>;

/// The targets of the edges from `a`, the most recently added first.
pub open spec fn out_neighbors(edges: Seq<(usize, usize)>, a: usize) -> Seq<usize>
    decreases edges.len(),
{
    if edges.len() == 0 {
        Seq::<usize>::empty()
    } else {
        let rest = out_neighbors(edges.drop_last(), a);
        if edges.last().0 == a {
            seq![edges.last().1] + rest
        } else {
            rest
        }
    }
}

/// Calls `Graph::with_capacity(0, 0)`, which makes a graph with no nodes and no edges.
#[verifier::external_body]
fn empty_graph() -> (g: Graph<ProjectDescriptor, (), Directed, usize>)
    ensures
        graph_nodes(g) == Seq::<ProjectDescriptor>::empty(),
        graph_edges(g) == Seq::<(usize, usize)>::empty(),
{
    Graph::with_capacity(0, 0)
}

/// Calls `Graph::add_node`, which appends the node and gives its index, the former number of
/// nodes. With `usize` indices the graph sets no limit of its own on the number of nodes.
#[verifier::external_body]
fn add_node(g: &mut Graph<ProjectDescriptor, (), Directed, usize>, weight: ProjectDescriptor) -> (r: usize)
    ensures
        r == graph_nodes(*old(g)).len(),
        graph_nodes(*final(g)) == graph_nodes(*old(g)).push(weight),
        graph_edges(*final(g)) == graph_edges(*old(g)),
{
    g.add_node(weight).index()
}

/// Calls `Graph::add_edge` for an edge from `a` to `b`, which panics unless both nodes exist,
/// and appends the edge.
#[verifier::external_body]
fn add_edge(g: &mut Graph<ProjectDescriptor, (), Directed, usize>, a: usize, b: usize)
    requires
        a < graph_nodes(*old(g)).len(),
        b < graph_nodes(*old(g)).len(),
    ensures
        graph_nodes(*final(g)) == graph_nodes(*old(g)),
        graph_edges(*final(g)) == graph_edges(*old(g)).push((a, b)),
{
    g.add_edge(NodeIndex::new(a), NodeIndex::new(b), ());
}

/// Calls `Graph::node_count`: the number of nodes.
#[verifier::external_body]
fn node_count(g: &Graph<ProjectDescriptor, (), Directed, usize>) -> (r: usize)
    ensures
        r == graph_nodes(*g).len(),
{
    g.node_count()
}

/// Indexes the graph (`Index<NodeIndex>`), which panics unless the node exists: the node at
/// index `i`.
#[verifier::external_body]
fn node_at(g: &Graph<ProjectDescriptor, (), Directed, usize>, i: usize) -> (r: &ProjectDescriptor)
    requires
        i < graph_nodes(*g).len(),
    ensures
        *r == graph_nodes(*g)[i as int],
{
    &g[NodeIndex::new(i)]
}

/// Indexes the graph mutably (`IndexMut<NodeIndex>`), which panics unless the node exists: the
/// node at index `i`, whose final value becomes that node.
#[verifier::external_body]
fn node_at_mut(g: &mut Graph<ProjectDescriptor, (), Directed, usize>, i: usize) -> (r: &mut ProjectDescriptor)
    requires
        i < graph_nodes(*old(g)).len(),
    ensures
        *r == graph_nodes(*old(g))[i as int],
        graph_nodes(*final(g)) == graph_nodes(*old(g)).update(i as int, *final(r)),
        graph_edges(*final(g)) == graph_edges(*old(g)),
{
    &mut g[NodeIndex::new(i)]
}

/// Calls `Graph::neighbors` on node `i`: for a directed graph, the targets of the edges from
/// `i`, the most recently added edge's first, as the documentation of the method says.
#[verifier::external_body]
fn neighbors(g: &Graph<ProjectDescriptor, (), Directed, usize>, i: usize) -> (r: Vec<usize>)
    requires
        i < graph_nodes(*g).len(),
    ensures
        r@ == out_neighbors(graph_edges(*g), i),
{
    g.neighbors(NodeIndex::new(i)).map(|n| n.index()).collect()
}

/// Helps to build a project
pub struct ProjectBuilder {
    name: String,
    dir: String,
    children: Vec<ProjectBuilder>,
}

impl ProjectBuilder {
    /// The name of the project.
    pub closed spec fn name_view(self) -> Seq<char> {
        self.name@
    }

    /// The directory of the project.
    pub closed spec fn dir_view(self) -> Seq<char> {
        self.dir@
    }

    /// The builders of the project's children, in the order they were added.
    pub closed spec fn children_view(self) -> Seq<ProjectBuilder> {
        self.children@
    }

    fn new(parent_dir: &str, name: String) -> (r: Self)
        ensures
            r.name_view() == name@,
            r.dir_view() == join_path(parent_dir@, name@),
            r.children_view().len() == 0,
    {
        let dir = join(parent_dir, name.as_str());
        Self { name, dir, children: Vec::new() }
    }

    /// Sets the name of this project
    pub fn set_name(&mut self, name: &str)
        ensures
            final(self).name_view() == name@,
            final(self).dir_view() == old(self).dir_view(),
            final(self).children_view() == old(self).children_view(),
    {
        self.name = name.to_owned();
    }

    /// Sets the directory of this project. by default, the directory is the parent projects
    /// directory + name
    pub fn set_dir(&mut self, path: &str)
        ensures
            final(self).name_view() == old(self).name_view(),
            final(self).dir_view() == path@,
            final(self).children_view() == old(self).children_view(),
    {
        self.dir = path.to_owned();
    }

    /// Adds a child project to this project. `path` is relative to this project, and should
    /// be written as a simple identifier. The child starts with the name `path` and the
    /// directory `path` in this project's directory, and is then configured by `configure`.
    pub fn project<F: FnOnce(&mut ProjectBuilder)>(&mut self, path: &str, configure: F)
        requires
            forall|b: &mut ProjectBuilder| call_requires(configure, (b,)),
        ensures
            final(self).name_view() == old(self).name_view(),
            final(self).dir_view() == old(self).dir_view(),
            final(self).children_view().len() == old(self).children_view().len() + 1,
            final(self).children_view().drop_last() == old(self).children_view(),
            exists|b: &mut ProjectBuilder| {
                &&& b.name_view() == path@
                &&& b.dir_view() == join_path(old(self).dir_view(), path@)
                &&& b.children_view().len() == 0
                &&& call_ensures(configure, (b,), ())
                &&& final(self).children_view().last() == *final(b)
            },
    {
        let mut builder = ProjectBuilder::new(self.dir.as_str(), path.to_owned());
        configure(&mut builder);
        let ghost before = self.children@;
        self.children.push(builder);
        assert(self.children@.drop_last() =~= before);
    }
}

/// The nodes and edges of a project graph: the nodes by what they hold, the edges as pairs
/// of node indices.
pub type GraphView = (Seq<DescriptorView>, Seq<(usize, usize)>);

/// Where a project of the directory `dir` has its build file: in `dir` under the default
/// name, when there is one, or not known.
pub open spec fn location_for(dir: Seq<char>, default_file: Option<Seq<char>>) -> (bool, Seq<char>) {
    match default_file {
        Some(f) => (true, join_path(dir, f)),
        None => (false, dir),
    }
}

/// The graph `g` with the project of the builder `b` added as a child of the node `parent`,
/// and then its children, each under it, in order.
pub open spec fn add_builder(g: GraphView, parent: usize, b: ProjectBuilder, default_file: Option<Seq<char>>) -> GraphView
    decreases b,
{
    let n = g.0.len();
    let loc = location_for(b.dir_view(), default_file);
    let with_node = (g.0.push((b.name_view(), loc.0, loc.1)), g.1.push((parent, n as usize)));
    add_children(with_node, n as usize, b.children_view(), default_file)
}

/// The graph `g` with the projects of the builders `cs` added, in order, as children of the
/// node `parent`.
pub open spec fn add_children(g: GraphView, parent: usize, cs: Seq<ProjectBuilder>, default_file: Option<Seq<char>>) -> GraphView
    decreases cs,
{
    if cs.len() == 0 {
        g
    } else {
        add_builder(add_children(g, parent, cs.drop_last(), default_file), parent, cs.last(), default_file)
    }
}

/// The views of a sequence of descriptors.
pub open spec fn descriptor_views(s: Seq<ProjectDescriptor>) -> Seq<DescriptorView> {
    s.map_values(|d: ProjectDescriptor| d@)
}

/// Every edge of `edges` joins two of the `n` nodes.
pub open spec fn edges_within(edges: Seq<(usize, usize)>, n: nat) -> bool {
    forall|k: int| 0 <= k < edges.len() ==> (#[trigger] edges[k]).0 < n && edges[k].1 < n
}

/// The targets of the edges from a node are nodes.
proof fn lemma_neighbors_within(edges: Seq<(usize, usize)>, a: usize, n: nat)
    requires
        edges_within(edges, n),
    ensures
        forall|k: int| 0 <= k < out_neighbors(edges, a).len() ==> #[trigger] out_neighbors(edges, a)[k] < n,
    decreases edges.len(),
{
    if edges.len() > 0 {
        let init = edges.drop_last();
        assert(edges_within(init, n)) by {
            assert forall|k: int| 0 <= k < init.len() implies (#[trigger] init[k]).0 < n && init[k].1 < n by {
                assert(init[k] == edges[k]);
            }
        }
        lemma_neighbors_within(init, a, n);
        let rest = out_neighbors(init, a);
        let last = edges[edges.len() - 1];
        assert(last == edges.last());
        if last.0 == a {
            let all = seq![last.1] + rest;
            assert forall|k: int| 0 <= k < all.len() implies #[trigger] all[k] < n by {
                if k > 0 {
                    assert(all[k] == rest[k - 1]);
                }
            }
        }
    }
}

/// What adding the builder `b` does to a graph: the nodes and edges before stay first; the
/// builder's project is the next node, joined to `parent` by the next edge; every later edge
/// starts at one of the new nodes.
proof fn lemma_builder_shape(g: GraphView, parent: usize, b: ProjectBuilder, d: Option<Seq<char>>)
    ensures
        ({
            let r = add_builder(g, parent, b, d);
            let loc = location_for(b.dir_view(), d);
            &&& r.0.len() > g.0.len()
            &&& r.0.take(g.0.len() as int) == g.0
            &&& r.0[g.0.len() as int] == (b.name_view(), loc.0, loc.1)
            &&& r.1.len() > g.1.len()
            &&& r.1.take(g.1.len() as int) == g.1
            &&& r.1[g.1.len() as int] == (parent, g.0.len() as usize)
            &&& r.0.len() <= usize::MAX ==> forall|k: int| g.1.len() < k < r.1.len() ==> #[trigger] r.1[k].0 >= g.0.len()
        }),
    decreases b,
{
    let n = g.0.len();
    let loc = location_for(b.dir_view(), d);
    let g1 = (g.0.push((b.name_view(), loc.0, loc.1)), g.1.push((parent, n as usize)));
    lemma_children_shape(g1, n as usize, b.children_view(), d);
    let r = add_builder(g, parent, b, d);
    assert(r == add_children(g1, n as usize, b.children_view(), d));
    assert(r.0.take(g1.0.len() as int) == g1.0);
    assert(r.0.take(n as int) =~= g.0) by {
        assert(r.0.take(n as int) =~= r.0.take(g1.0.len() as int).take(n as int));
        assert(g1.0.take(n as int) =~= g.0);
    }
    assert(r.0[n as int] == r.0.take(g1.0.len() as int)[n as int]);
    assert(r.1.take(g.1.len() as int) =~= g.1) by {
        assert(r.1.take(g.1.len() as int) =~= r.1.take(g1.1.len() as int).take(g.1.len() as int));
        assert(g1.1.take(g.1.len() as int) =~= g.1);
    }
    assert(r.1[g.1.len() as int] == r.1.take(g1.1.len() as int)[g.1.len() as int]);
}

/// What adding the builders `cs` under `parent` does to a graph: the nodes and edges before
/// stay first, and every new edge starts at `parent` or at one of the new nodes.
proof fn lemma_children_shape(g: GraphView, parent: usize, cs: Seq<ProjectBuilder>, d: Option<Seq<char>>)
    ensures
        ({
            let r = add_children(g, parent, cs, d);
            &&& r.0.len() >= g.0.len()
            &&& r.0.take(g.0.len() as int) == g.0
            &&& r.1.len() >= g.1.len()
            &&& r.1.take(g.1.len() as int) == g.1
            &&& r.0.len() <= usize::MAX ==> forall|k: int| g.1.len() <= k < r.1.len()
                ==> (#[trigger] r.1[k].0 == parent || r.1[k].0 >= g.0.len())
        }),
    decreases cs,
{
    if cs.len() == 0 {
        assert(g.0.take(g.0.len() as int) =~= g.0);
        assert(g.1.take(g.1.len() as int) =~= g.1);
    } else {
        let mid = add_children(g, parent, cs.drop_last(), d);
        lemma_children_shape(g, parent, cs.drop_last(), d);
        lemma_builder_shape(mid, parent, cs.last(), d);
        let r = add_children(g, parent, cs, d);
        assert(r == add_builder(mid, parent, cs.last(), d));
        assert(r.0.take(g.0.len() as int) =~= g.0) by {
            assert(r.0.take(g.0.len() as int) =~= r.0.take(mid.0.len() as int).take(g.0.len() as int));
        }
        assert(r.1.take(g.1.len() as int) =~= g.1) by {
            assert(r.1.take(g.1.len() as int) =~= r.1.take(mid.1.len() as int).take(g.1.len() as int));
        }
        if r.0.len() <= usize::MAX {
            assert forall|k: int| g.1.len() <= k < r.1.len() implies (#[trigger] r.1[k].0 == parent || r.1[k].0 >= g.0.len()) by {
                if k < mid.1.len() {
                    assert(r.1[k] == r.1.take(mid.1.len() as int)[k]);
                    assert(mid.1[k] == r.1[k]);
                } else if k > mid.1.len() {
                    assert(r.1[k].0 >= mid.0.len());
                }
            }
        }
    }
}

/// Edges after the first `m` that do not start at `a` add no neighbors of `a`.
proof fn lemma_neighbors_unchanged(edges: Seq<(usize, usize)>, m: int, a: usize)
    requires
        0 <= m <= edges.len(),
        forall|k: int| m <= k < edges.len() ==> #[trigger] edges[k].0 != a,
    ensures
        out_neighbors(edges, a) == out_neighbors(edges.take(m), a),
    decreases edges.len(),
{
    if edges.len() > m {
        let init = edges.drop_last();
        assert(edges[edges.len() - 1] == edges.last());
        assert forall|k: int| m <= k < init.len() implies #[trigger] init[k].0 != a by {
            assert(init[k] == edges[k]);
        }
        lemma_neighbors_unchanged(init, m, a);
        assert(init.take(m) =~= edges.take(m));
    } else {
        assert(edges.take(m) =~= edges);
    }
}

/// A project added while no default build file is set is in the directory of its builder:
/// a search for that directory matches it.
pub proof fn added_project_is_found(g: GraphView, parent: usize, b: ProjectBuilder)
    ensures
        add_builder(g, parent, b, None).0.len() > g.0.len(),
        add_builder(g, parent, b, None).0[g.0.len() as int].0 == b.name_view(),
        descriptor_matches(add_builder(g, parent, b, None).0[g.0.len() as int], b.dir_view()),
{
    lemma_builder_shape(g, parent, b, None);
    let c = components(b.dir_view());
    assert(c.subrange(0, c.len() as int) =~= c);
}

/// The project just added is the first of its parent's children, before those it had.
pub proof fn added_project_is_first_child(g: GraphView, parent: usize, b: ProjectBuilder, d: Option<Seq<char>>)
    requires
        parent < g.0.len(),
        add_builder(g, parent, b, d).0.len() <= usize::MAX,
    ensures
        out_neighbors(add_builder(g, parent, b, d).1, parent) == seq![g.0.len() as usize] + out_neighbors(g.1, parent),
{
    lemma_builder_shape(g, parent, b, d);
    let r = add_builder(g, parent, b, d);
    let m = g.1.len() as int;
    assert forall|k: int| m + 1 <= k < r.1.len() implies #[trigger] r.1[k].0 != parent by {
        assert(r.1[k].0 >= g.0.len());
    }
    lemma_neighbors_unchanged(r.1, m + 1, parent);
    let head = r.1.take(m + 1);
    assert(head.drop_last() =~= g.1);
    assert(head.last() == (parent, g.0.len() as usize));
}

/// Describes the project graph
#[derive(Debug)]
pub struct ProjectGraph {
    graph: Graph<ProjectDescriptor, (), Directed, usize>,
    project_dir: String,
    root_project: usize,
    default_build_script_file: Option<String>,
}

impl ProjectGraph {
    /// The descriptors of the projects, by node index.
    pub closed spec fn nodes(self) -> Seq<ProjectDescriptor> {
        graph_nodes(self.graph)
    }

    /// The edges from each project to its children, in the order they were added.
    pub closed spec fn edges(self) -> Seq<(usize, usize)> {
        graph_edges(self.graph)
    }

    /// The nodes, by what they hold, and the edges.
    pub open spec fn graph_view(self) -> GraphView {
        (descriptor_views(self.nodes()), self.edges())
    }

    /// The directory of the build.
    pub closed spec fn project_dir(self) -> Seq<char> {
        self.project_dir@
    }

    /// The name of the build file of every project, once it is set.
    pub closed spec fn default_file(self) -> Option<Seq<char>> {
        match self.default_build_script_file {
            Some(f) => Some(f@),
            None => None,
        }
    }

    /// The root project is the first node, and every edge joins two nodes.
    pub closed spec fn wf(self) -> bool {
        &&& self.root_project == 0
        &&& self.nodes().len() > 0
        &&& edges_within(self.edges(), self.nodes().len())
    }

    /// Creates a new project graph with a pre-initialized root project, named by the last
    /// component of `project_dir`, which must name a directory.
    pub fn new(project_dir: &str) -> (r: Self)
        requires
            file_name_of(project_dir@) is Some,
        ensures
            r.wf(),
            r.graph_view() == (seq![(file_name_of(project_dir@)->0, false, project_dir@)], Seq::<(usize, usize)>::empty()),
            r.project_dir() == project_dir@,
            r.default_file() is None,
    {
        let project_name = match file_name(project_dir) {
            Some(n) => n,
            None => {
                assert(false);
                String::new()
            },
        };
        let root_project = ProjectDescriptor::new(
            project_name,
            ProjectDescriptorLocation::KnownDirectory(project_dir.to_owned()),
        );
        let mut graph = empty_graph();
        let idx = add_node(&mut graph, root_project);
        let r = Self {
            graph,
            project_dir: project_dir.to_owned(),
            root_project: idx,
            default_build_script_file: None,
        };
        assert(descriptor_views(r.nodes()) =~= seq![(file_name_of(project_dir@)->0, false, project_dir@)]);
        r
    }

    /// Gets the root project descriptor
    pub fn root_project(&self) -> (r: &ProjectDescriptor)
        requires
            self.wf(),
        ensures
            *r == self.nodes()[0],
    {
        node_at(&self.graph, self.root_project)
    }

    /// Sets the name of the build file of every project: each project whose directory alone
    /// is known gets a build file of that name in its directory. The name can be set once.
    pub fn set_default_build_file_name(&mut self, name: &str)
        requires
            old(self).wf(),
            old(self).default_file() is None,
        ensures
            final(self).wf(),
            final(self).default_file() == Some(name@),
            final(self).graph_view() == (
                old(self).graph_view().0.map_values(|d: DescriptorView| with_file_name(d, name@)),
                old(self).graph_view().1,
            ),
            final(self).project_dir() == old(self).project_dir(),
    {
        self.default_build_script_file = Some(name.to_owned());
        let n = node_count(&self.graph);
        let ghost start = descriptor_views(self.nodes());
        let mut i: usize = 0;
        while i < n
            invariant
                self.root_project == 0,
                n == self.nodes().len(),
                n == start.len(),
                i <= n,
                edges_within(self.edges(), n as nat),
                self.edges() == old(self).edges(),
                self.default_file() == Some(name@),
                self.project_dir() == old(self).project_dir(),
                start == descriptor_views(old(self).nodes()),
                forall|k: int| 0 <= k < i ==> #[trigger] descriptor_views(self.nodes())[k] == with_file_name(start[k], name@),
                forall|k: int| i <= k < n ==> #[trigger] descriptor_views(self.nodes())[k] == start[k],
            decreases n - i,
        {
            let ghost before = self.nodes();
            assert(descriptor_views(before)[i as int] == start[i as int]);
            assert(descriptor_views(before)[i as int] == before[i as int]@);
            let node = node_at_mut(&mut self.graph, i);
            let ghost was = *node;
            node.set_file_name(name);
            assert(was@ == start[i as int]);
            assert(self.nodes()[i as int]@ == with_file_name(start[i as int], name@));
            assert(descriptor_views(self.nodes()) =~= descriptor_views(before).update(i as int, self.nodes()[i as int]@));
            i = i + 1;
        }
        assert(descriptor_views(self.nodes()) =~= start.map_values(|d: DescriptorView| with_file_name(d, name@)));
    }

    /// Adds a child project to the root project. The child starts with the name `path` and
    /// the directory `path` in the build's directory, and is then configured by `configure`;
    /// the graph gains the project that the builder then describes, and its children.
    pub fn project<F: FnOnce(&mut ProjectBuilder)>(&mut self, path: &str, configure: F)
        requires
            old(self).wf(),
            forall|b: &mut ProjectBuilder| call_requires(configure, (b,)),
        ensures
            final(self).wf(),
            exists|b: &mut ProjectBuilder| {
                &&& b.name_view() == path@
                &&& b.dir_view() == join_path(old(self).project_dir(), path@)
                &&& b.children_view().len() == 0
                &&& call_ensures(configure, (b,), ())
                &&& final(self).graph_view() == add_builder(
                    old(self).graph_view(),
                    0,
                    *final(b),
                    old(self).default_file(),
                )
            },
            final(self).project_dir() == old(self).project_dir(),
            final(self).default_file() == old(self).default_file(),
    {
        let mut builder = ProjectBuilder::new(self.project_dir.as_str(), path.to_owned());
        configure(&mut builder);
        let ghost b = builder;
        self.add_project_from_builder(self.root_project, builder);
    }

    /// Adds the project of `builder` as a child of the node `parent`, then its children under
    /// it, in order.
    fn add_project_from_builder(&mut self, parent: usize, builder: ProjectBuilder)
        requires
            old(self).wf(),
            parent < old(self).nodes().len(),
        ensures
            final(self).wf(),
            final(self).graph_view() == add_builder(old(self).graph_view(), parent, builder, old(self).default_file()),
            final(self).nodes().len() > old(self).nodes().len(),
            final(self).project_dir() == old(self).project_dir(),
            final(self).default_file() == old(self).default_file(),
        decreases builder,
    {
        let ghost b0 = builder;
        let ghost g0 = self.graph_view();
        let ProjectBuilder { name, dir, children } = builder;
        let location = match &self.default_build_script_file {
            None => ProjectDescriptorLocation::KnownDirectory(dir),
            Some(s) => ProjectDescriptorLocation::KnownFile(join(dir.as_str(), s.as_str())),
        };
        let pd = ProjectDescriptor::new(name, location);
        let ghost before = self.nodes();
        let node = add_node(&mut self.graph, pd);
        add_edge(&mut self.graph, parent, node);
        let ghost g1 = self.graph_view();
        assert(descriptor_views(self.nodes()) =~= descriptor_views(before).push(pd@));
        let ghost loc = location_for(b0.dir_view(), old(self).default_file());
        assert(pd@ == (b0.name_view(), loc.0, loc.1));
        assert(g1 == (g0.0.push((b0.name_view(), loc.0, loc.1)), g0.1.push((parent, g0.0.len() as usize))));
        assert(edges_within(self.edges(), self.nodes().len())) by {
            assert forall|k: int| 0 <= k < self.edges().len() implies (#[trigger] self.edges()[k]).0 < self.nodes().len()
                && self.edges()[k].1 < self.nodes().len() by {
                if k < self.edges().len() - 1 {
                    assert(self.edges()[k] == old(self).edges()[k]);
                }
            }
        }
        let ghost cs = b0.children_view();
        let mut rest = children;
        let n = rest.len();
        let mut i: usize = 0;
        assert(cs.take(0) =~= Seq::<ProjectBuilder>::empty());
        assert(rest@ =~= cs.skip(0));
        while i < n
            invariant
                self.wf(),
                b0 == builder,
                cs == b0.children_view(),
                n == cs.len(),
                i <= n,
                rest@ == cs.skip(i as int),
                node < self.nodes().len(),
                node == g0.0.len(),
                self.nodes().len() > old(self).nodes().len(),
                self.graph_view() == add_children(g1, node, cs.take(i as int), old(self).default_file()),
                self.project_dir() == old(self).project_dir(),
                self.default_file() == old(self).default_file(),
            decreases n - i,
        {
            let child = rest.remove(0);
            assert(child == cs[i as int]);
            assert(decreases_to!(b0 => cs[i as int]));
            self.add_project_from_builder(node, child);
            assert(cs.take(i + 1).drop_last() =~= cs.take(i as int));
            assert(cs.take(i + 1).last() == child);
            assert(rest@ =~= cs.skip(i + 1));
            i = i + 1;
        }
        assert(cs.take(n as int) =~= cs);
    }

    /// The index of the first project whose directory ends with `path`, if one does.
    fn position_of(&self, path: &str) -> (r: Option<usize>)
        requires
            self.wf(),
        ensures
            match r {
                Some(i) => i < self.nodes().len() && descriptor_matches(self.nodes()[i as int]@, path@)
                    && forall|j: int| 0 <= j < i ==> !descriptor_matches(#[trigger] self.nodes()[j]@, path@),
                None => forall|j: int| 0 <= j < self.nodes().len() ==> !descriptor_matches(#[trigger] self.nodes()[j]@, path@),
            },
    {
        let n = node_count(&self.graph);
        let mut i: usize = 0;
        while i < n
            invariant
                n == self.nodes().len(),
                i <= n,
                forall|j: int| 0 <= j < i ==> !descriptor_matches(#[trigger] self.nodes()[j]@, path@),
            decreases n - i,
        {
            if node_at(&self.graph, i).matches_dir(path) {
                return Some(i);
            }
            i = i + 1;
        }
        None
    }

    /// Find a project by path: the first project whose directory ends with `path`.
    pub fn find_project(&self, path: &str) -> (r: Option<&ProjectDescriptor>)
        requires
            self.wf(),
        ensures
            match r {
                Some(d) => exists|i: int| 0 <= i < self.nodes().len() && *d == self.nodes()[i]
                    && descriptor_matches(self.nodes()[i]@, path@)
                    && forall|j: int| 0 <= j < i ==> !descriptor_matches(#[trigger] self.nodes()[j]@, path@),
                None => forall|j: int| 0 <= j < self.nodes().len() ==> !descriptor_matches(#[trigger] self.nodes()[j]@, path@),
            },
    {
        match self.position_of(path) {
            Some(i) => Some(node_at(&self.graph, i)),
            None => None,
        }
    }

    /// Find a project by path: the first project whose directory ends with `path`.
    pub fn find_project_mut(&mut self, path: &str) -> (r: Option<&mut ProjectDescriptor>)
        requires
            old(self).wf(),
        ensures
            match r {
                Some(d) => exists|i: int| 0 <= i < old(self).nodes().len() && *d == old(self).nodes()[i]
                    && descriptor_matches(old(self).nodes()[i]@, path@)
                    && (forall|j: int| 0 <= j < i ==> !descriptor_matches(#[trigger] old(self).nodes()[j]@, path@))
                    && final(self).nodes() == old(self).nodes().update(i, *final(d)),
                None => (forall|j: int| 0 <= j < old(self).nodes().len() ==> !descriptor_matches(#[trigger] old(self).nodes()[j]@, path@))
                    && final(self).nodes() == old(self).nodes(),
            },
            final(self).edges() == old(self).edges(),
            final(self).project_dir() == old(self).project_dir(),
            final(self).default_file() == old(self).default_file(),
            final(self).wf(),
    {
        match self.position_of(path) {
            Some(i) => Some(node_at_mut(&mut self.graph, i)),
            None => None,
        }
    }

    /// Gets the child projects of the first project equal to `proj`, the most recently added
    /// first; none when no project equals `proj`.
    pub fn children_projects(&self, proj: &ProjectDescriptor) -> (r: Vec<&ProjectDescriptor>)
        requires
            self.wf(),
        ensures
            (forall|j: int| 0 <= j < self.nodes().len() ==> !same_descriptor(#[trigger] self.nodes()[j]@, proj@))
                ==> r@.len() == 0,
            forall|i: int| 0 <= i < self.nodes().len() && same_descriptor(self.nodes()[i]@, proj@)
                && (forall|j: int| 0 <= j < i ==> !same_descriptor(#[trigger] self.nodes()[j]@, proj@))
                ==> (r@.len() == out_neighbors(self.edges(), i as usize).len()
                    && forall|k: int| 0 <= k < r@.len() ==> *(#[trigger] r@[k]) == self.nodes()[out_neighbors(self.edges(), i as usize)[k] as int]),
    {
        let n = node_count(&self.graph);
        let mut i: usize = 0;
        while i < n
            invariant
                self.wf(),
                n == self.nodes().len(),
                i <= n,
                forall|j: int| 0 <= j < i ==> !same_descriptor(#[trigger] self.nodes()[j]@, proj@),
            decreases n - i,
        {
            if node_at(&self.graph, i).same_as(proj) {
                let targets = neighbors(&self.graph, i);
                proof {
                    lemma_neighbors_within(self.edges(), i, n as nat);
                }
                let mut out: Vec<&ProjectDescriptor> = Vec::new();
                let mut k: usize = 0;
                while k < targets.len()
                    invariant
                        n == self.nodes().len(),
                        targets@ == out_neighbors(self.edges(), i),
                        forall|m: int| 0 <= m < targets@.len() ==> #[trigger] targets@[m] < n,
                        k <= targets@.len(),
                        out@.len() == k,
                        forall|m: int| 0 <= m < k ==> *(#[trigger] out@[m]) == self.nodes()[targets@[m] as int],
                    decreases targets@.len() - k,
                {
                    out.push(node_at(&self.graph, targets[k]));
                    k = k + 1;
                }
                return out;
            }
            i = i + 1;
        }
        Vec::new()
    }

    /// Gets a mutable reference to the root project descriptor
    pub fn root_project_mut(&mut self) -> (r: &mut ProjectDescriptor)
        requires
            old(self).wf(),
        ensures
            *r == old(self).nodes()[0],
            final(self).nodes() == old(self).nodes().update(0, *final(r)),
            final(self).edges() == old(self).edges(),
            final(self).project_dir() == old(self).project_dir(),
            final(self).default_file() == old(self).default_file(),
            final(self).wf(),
    {
        node_at_mut(&mut self.graph, self.root_project)
    }
}

} // verus!
