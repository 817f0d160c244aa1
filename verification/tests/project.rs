use assemble_core::project::{GetProjectId, Project};
use assemble_core::project::ProjectError;
use assemble_core::project::build_dir_property;
use assemble_core::lazy_evaluation::{PropStore, Provider};
use assemble_core::project::requests::TaskRequests;
use assemble_core::identifier::ProjectId;
use assemble_core::project::finder::{ProjectFinder, ProjectPath, ProjectTree, TaskPath};
use assemble_core::project::requests::TaskRequestsBuilder;
use assemble_core::identifier::TaskId;

fn tree() -> (ProjectTree, ProjectId, ProjectId, ProjectId) {
    let root = ProjectId::new("root").unwrap();
    let mut tree = ProjectTree::new(root.clone());
    let sub1 = tree.add_subproject(&root, "sub1").unwrap();
    let sub2 = tree.add_subproject(&sub1, "sub2").unwrap();
    (tree, root, sub1, sub2)
}

#[test]
fn project_relative_search() {
    let (tree, _, sub1, _) = tree();
    let finder = ProjectFinder::new(&sub1);
    assert_eq!(finder.find(&tree, &ProjectPath::new("")).unwrap().to_string(), ":root:sub1");
    assert_eq!(
        finder.find(&tree, &ProjectPath::new("sub2")).unwrap().to_string(),
        ":root:sub1:sub2"
    );
}

#[test]
fn project_absolute_search() {
    let (tree, _, sub1, _) = tree();
    let finder = ProjectFinder::new(&sub1);
    assert_eq!(finder.find(&tree, &ProjectPath::new(":")).unwrap().to_string(), ":root");
    assert_eq!(finder.find(&tree, &ProjectPath::new(":root")).unwrap().to_string(), ":root");
    assert_eq!(finder.find(&tree, &ProjectPath::new(":sub1")).unwrap().to_string(), ":root:sub1");
    assert_eq!(
        finder.find(&tree, &ProjectPath::new(":sub1:sub2")).unwrap().to_string(),
        ":root:sub1:sub2"
    );
    assert_eq!(
        finder.find(&tree, &ProjectPath::new(":root:sub1:sub2")).unwrap().to_string(),
        ":root:sub1:sub2"
    );
    assert!(finder.find(&tree, &ProjectPath::new(":sub2")).is_none(), "sub2 is not a child of the root");
}

#[test]
fn path_components() {
    assert!(ProjectPath::new("").is_empty());
    assert!(!ProjectPath::new(":").is_empty());
    let mut comps = ProjectPath::new(":a:b:").components();
    assert_eq!(comps.len(), 3);
    assert!(matches!(comps.next(), Some(assemble_core::project::finder::PathComponent::Root)));
    assert!(matches!(comps.next(), Some(assemble_core::project::finder::PathComponent::Normal(ref s)) if s == "a"));
}

#[test]
fn task_path_split() {
    let path = TaskPath::new(":sub1:build");
    assert_eq!(path.project().as_str(), ":sub1");
    assert_eq!(path.task(), "build");
    let path = TaskPath::new(":build");
    assert_eq!(path.project().as_str(), ":");
    assert_eq!(path.task(), "build");
    let path = TaskPath::new("build");
    assert_eq!(path.project().as_str(), "");
    assert_eq!(path.task(), "build");
}

#[test]
fn requests_keep_order_and_decoders() {
    let mut builder: TaskRequestsBuilder<u32> = TaskRequestsBuilder::new();
    let a = TaskId::new("root:a").unwrap();
    let b = TaskId::new("root:b").unwrap();
    builder.add_tasks(vec![a.clone()]);
    builder.add_configured_tasks(vec![b.clone()], 7);
    let requests = builder.finish();
    assert_eq!(requests.requested_tasks().len(), 2);
    assert_eq!(requests.requested_tasks()[0].to_string(), ":root:a");
    assert_eq!(requests.decoder(&b), Some(7));
    assert_eq!(requests.decoder(&a), None);
}

/// A project and its children, as the YAML fixtures below describe them.
#[derive(Debug)]
struct ProjectDesc {
    name: String,
    children: Vec<ProjectDesc>,
}

struct ProjectDescVisitor;

impl<'de> serde::de::Visitor<'de> for ProjectDescVisitor {
    type Value = ProjectDesc;

    fn expecting(&self, formatter: &mut std::fmt::Formatter) -> std::fmt::Result {
        formatter.write_str("A map")
    }

    fn visit_map<A>(self, mut map: A) -> Result<Self::Value, A::Error>
    where
        A: serde::de::MapAccess<'de>,
    {
        let (name, children) = map
            .next_entry::<String, Vec<ProjectDesc>>()?
            .ok_or(<A::Error as serde::de::Error>::custom("one entry is required"))?;
        Ok(ProjectDesc { name, children })
    }
}

impl<'de> serde::Deserialize<'de> for ProjectDesc {
    fn deserialize<D>(deserializer: D) -> Result<Self, D::Error>
    where
        D: serde::Deserializer<'de>,
    {
        deserializer.deserialize_map(ProjectDescVisitor)
    }
}

fn add_children(
    tree: &mut ProjectTree,
    parent: &ProjectId,
    children: Vec<ProjectDesc>,
) -> Result<(), assemble_core::project::error::ProjectError> {
    for child in children {
        let id = tree
            .add_subproject(parent, &child.name)
            .map_err(assemble_core::project::error::ProjectError::InvalidIdentifier)?;
        add_children(tree, &id, child.children)?;
    }
    Ok(())
}

/// Quickly creates a project structure from yaml
fn quick_create(yaml: &str) -> Result<ProjectTree, assemble_core::project::error::ProjectError> {
    let desc: ProjectDesc = serde_yaml::from_str(yaml)
        .map_err(|e| assemble_core::project::error::ProjectError::custom(e))?;
    let root = ProjectId::new(&desc.name)
        .map_err(assemble_core::project::error::ProjectError::InvalidIdentifier)?;
    let mut tree = ProjectTree::new(root.clone());
    add_children(&mut tree, &root, desc.children)?;
    Ok(tree)
}

#[test]
fn quick_create_test() {
    let project = quick_create(
        r"
    root_proj:
        - child1:
        - child2:
    ",
    )
    .expect("could not create project");
    assert_eq!(project.root().to_string(), ":root_proj");
    assert_eq!(
        project.get_subproject(project.root(), "child1").unwrap().to_string(),
        ":root_proj:child1"
    );
    assert_eq!(
        project.get_subproject(project.root(), "child2").unwrap().to_string(),
        ":root_proj:child2"
    );
}

#[test]
fn no_multiple_keys() {
    quick_create(
        r"
    root1:
    root2:
    ",
    )
    .expect_err("should not be able to create a project here");
}

fn registered_tree() -> (ProjectTree, assemble_core::project::finder::TaskRegistry, Vec<ProjectId>) {
    let root = ProjectId::new("parent").unwrap();
    let mut tree = ProjectTree::new(root.clone());
    let mid1 = tree.add_subproject(&root, "mid1").unwrap();
    let child1 = tree.add_subproject(&mid1, "child1").unwrap();
    let child2 = tree.add_subproject(&mid1, "child2").unwrap();
    let mid2 = tree.add_subproject(&root, "mid2").unwrap();
    let child4 = tree.add_subproject(&mid2, "child4").unwrap();
    let all = vec![root, mid1, child1, child2, mid2, child4];
    let mut tasks = assemble_core::project::finder::TaskRegistry::new();
    for p in &all {
        let id = assemble_core::identifier::TaskIdFactory::new(p.clone()).create("taskName").unwrap();
        assert!(tasks.register(id, false));
    }
    (tree, tasks, all)
}

#[test]
fn collect_relative_tasks() {
    let (tree, tasks, all) = registered_tree();
    let finder = assemble_core::project::finder::TaskFinder::new(&all[0]);
    let found = finder.find(&tree, &tasks, &TaskPath::new("taskName")).unwrap().unwrap_or_default();
    assert_eq!(found.len(), all.len(), "all registered tasks of taskName should be found");
    let names: Vec<String> = found.iter().map(|t| t.to_string()).collect();
    assert_eq!(
        names,
        vec![
            ":parent:taskName",
            ":parent:mid1:taskName",
            ":parent:mid1:child1:taskName",
            ":parent:mid1:child2:taskName",
            ":parent:mid2:taskName",
            ":parent:mid2:child4:taskName",
        ]
    );
}

#[test]
fn abs_works() {
    let (tree, tasks, all) = registered_tree();
    let finder = assemble_core::project::finder::TaskFinder::new(&all[1]);
    let found = finder.find(&tree, &tasks, &TaskPath::new(":taskName")).unwrap().unwrap_or_default();
    assert_eq!(found.len(), 1, "only one returned");
    assert_eq!(found[0].to_string(), ":parent:taskName");
}

#[test]
fn only_current_tasks_stop_the_search() {
    let (tree, mut tasks, all) = registered_tree();
    let build = assemble_core::identifier::TaskIdFactory::new(all[1].clone()).create("build").unwrap();
    assert!(tasks.register(build, true));
    let below = assemble_core::identifier::TaskIdFactory::new(all[2].clone()).create("build").unwrap();
    assert!(tasks.register(below, false));
    let finder = assemble_core::project::finder::TaskFinder::new(&all[0]);
    let found = finder.find(&tree, &tasks, &TaskPath::new("build")).unwrap().unwrap();
    let names: Vec<String> = found.iter().map(|t| t.to_string()).collect();
    assert_eq!(names, vec![":parent:mid1:build"]);
    assert!(finder.find(&tree, &tasks, &TaskPath::new("missing")).unwrap().is_none());
    let err = finder.find(&tree, &tasks, &TaskPath::new(":nowhere:build")).unwrap_err();
    assert!(matches!(err, assemble_core::project::ProjectError::ProjectNotFound(ref p) if p == ":nowhere"));
}

#[test]
fn requests_from_args_or_defaults() {
    let (tree, tasks, all) = registered_tree();
    let args = vec![":mid2:taskName".to_string(), ":mid1:child1:taskName".to_string()];
    let reqs: TaskRequests<u32> = TaskRequests::build(&tree, &tasks, &all[0], &vec![], &args).unwrap();
    let names: Vec<String> = reqs.requested_tasks().iter().map(|t| t.to_string()).collect();
    assert_eq!(names, vec![":parent:mid2:taskName", ":parent:mid1:child1:taskName"]);
    let defaults = vec![":taskName".to_string()];
    let reqs: TaskRequests<u32> = TaskRequests::build(&tree, &tasks, &all[0], &defaults, &vec![]).unwrap();
    let names: Vec<String> = reqs.requested_tasks().iter().map(|t| t.to_string()).collect();
    assert_eq!(names, vec![":parent:taskName"]);
    let empty: TaskRequests<u32> = TaskRequests::build(&tree, &tasks, &all[0], &vec![], &vec![]).unwrap();
    assert!(empty.requested_tasks().is_empty());
    let bad = vec![":taskName".to_string(), "nothing".to_string()];
    let err = TaskRequests::<u32>::build(&tree, &tasks, &all[0], &vec![], &bad).unwrap_err();
    assert_eq!(err.to_string(), "No task identifier could be found for \"nothing\"");
}

#[test]
fn build_dir_lies_inside_the_project_directory() {
    let mut store: PropStore<String> = PropStore::new();
    let id = ProjectId::new("root").unwrap();
    let prop = build_dir_property(&id, "/work/app", &mut store).unwrap();
    assert_eq!(prop.get(&store), "/work/app/build".to_string());
    assert_eq!(prop.id().to_string(), ":root:buildDir");
    let nested = build_dir_property(&id, "/work/app/", &mut store).unwrap();
    assert_eq!(nested.get(&store), "/work/app/build".to_string());
}

#[test]
fn project_name_based_on_directory() {
    let mut store: PropStore<String> = PropStore::new();
    let project = Project::in_dir("parent_dir/ProjectName", &mut store).unwrap();
    assert_eq!(project.id().to_string(), ":parent_dir:ProjectName");
}

#[test]
fn project_in_dir_with_id_and_root() {
    let mut store: PropStore<String> = PropStore::new();
    let root = Project::in_dir_with_id("/work/app", "app", &mut store).unwrap();
    assert!(root.is_root());
    assert_eq!(root.root_dir(), "/work/app");
    assert_eq!(root.build_dir().get(&store), "/work/app/build".to_string());
    assert_eq!(root.build_dir().id().to_string(), ":app:buildDir");
    assert!(root.registered_tasks().is_empty());
    assert!(root.subprojects().is_empty());
    assert!(root.parent_id().is_none());

    let child = Project::in_dir_with_id_and_root("/work/app/lib", "app:lib", Some(&root), &mut store).unwrap();
    assert!(!child.is_root());
    assert_eq!(child.root_id().to_string(), ":app");
    assert_eq!(child.root_dir(), "/work/app");
    assert_eq!(child.project_dir(), "/work/app/lib");
    assert_eq!(child.to_string(), "Project :app:lib");

    assert!(Project::in_dir_with_id("/work/app", "9app", &mut store).is_err());
}

#[test]
fn subprojects_are_created_once_and_configured() {
    let mut store: PropStore<String> = PropStore::new();
    let mut root = Project::in_dir_with_id("/work/app", "app", &mut store).unwrap();
    root.subproject("lib", |p: &mut Project| {
        p.set_property("kind".to_string(), Some("library".to_string()));
        Ok(())
    }, &mut store).unwrap();
    root.subproject("lib", |p: &mut Project| {
        p.set_default_tasks(vec![TaskId::new("app:lib:build").unwrap()]);
        Ok(())
    }, &mut store).unwrap();
    assert_eq!(root.subprojects().len(), 1);
    let lib = root.get_subproject("lib").unwrap();
    assert_eq!(lib.id().to_string(), ":app:lib");
    assert_eq!(lib.project_dir(), "/work/app/lib");
    assert_eq!(lib.root_dir(), "/work/app");
    assert_eq!(lib.parent_id().unwrap().to_string(), ":app");
    assert_eq!(lib.get_property("kind"), Some(&Some("library".to_string())));
    assert_eq!(lib.default_tasks().len(), 1);
    assert_eq!(lib.build_dir().get(&store), "/work/app/lib/build".to_string());
    let missing = root.get_subproject("docs");
    assert!(matches!(missing, Err(ProjectError::NoIdentifiersFound(ref m)) if m == ":app:docs"));
}

#[test]
fn project_properties_replace_their_value() {
    let mut store: PropStore<String> = PropStore::new();
    let mut project = Project::in_dir_with_id("/work/app", "app", &mut store).unwrap();
    assert!(!project.has_property("version"));
    project.set_property("version".to_string(), Some("1".to_string()));
    project.set_property("name".to_string(), None);
    project.set_property("version".to_string(), Some("2".to_string()));
    assert_eq!(project.get_property("version"), Some(&Some("2".to_string())));
    assert_eq!(project.get_property("name"), Some(&None));
    assert_eq!(project.properties().len(), 2);
}

#[test]
fn build_dir_can_be_moved() {
    let mut store: PropStore<String> = PropStore::new();
    let mut project = Project::in_dir_with_id("/work/app", "app", &mut store).unwrap();
    project.set_build_dir("out", &mut store);
    assert_eq!(project.build_dir().get(&store), "/work/app/out".to_string());
}

#[test]
fn project_tasks_are_listed_in_order() {
    let mut store: PropStore<String> = PropStore::new();
    let mut project = Project::in_dir_with_id("/work/app", "app", &mut store).unwrap();
    let build = project.task_id_factory().create("build").unwrap();
    let test = project.task_id_factory().create("test").unwrap();
    project.task_container_mut().register(build.clone(), false);
    project.task_container_mut().register(test.clone(), true);
    let tasks: Vec<String> = project.registered_tasks().iter().map(|t| t.to_string()).collect();
    assert_eq!(tasks, vec![":app:build".to_string(), ":app:test".to_string()]);
}
