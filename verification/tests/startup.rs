use assemble_core::startup::initialization::ProjectGraph;

#[test]
fn can_set_default_build_name() {
    let mut graph = ProjectGraph::new("assemble");
    graph.set_default_build_file_name("build.assemble");
    assert_eq!(graph.root_project().build_file(), Some("assemble/build.assemble"));
}

#[test]
fn can_find_project() {
    let mut graph = ProjectGraph::new("assemble");

    graph.project("list", |builder| {
        builder.project("linked", |_| {});
        builder.project("array", |_| {});
    });
    graph.project("map", |b| {
        b.project("set", |_| {});
        b.project("ordered", |_| {});
        b.project("hashed", |_| {});
    });

    assert!(graph.find_project("assemble/map/hashed").is_some());
    assert!(graph.find_project("assemble/list/array").is_some());
    assert!(graph.find_project("assemble/list/garfunkle").is_none());
}

#[test]
fn root_project_is_named_by_directory() {
    let graph = ProjectGraph::new("/work/builds/assemble");
    assert_eq!(graph.root_project().name(), "assemble");
    assert_eq!(graph.root_project().build_file(), None);
    assert_eq!(graph.root_project().directory(), "/work/builds/assemble");
}

#[test]
fn children_are_listed_most_recent_first() {
    let mut graph = ProjectGraph::new("assemble");
    graph.project("list", |builder| {
        builder.project("linked", |_| {});
        builder.project("array", |_| {});
    });
    graph.project("map", |_| {});
    let root = graph.root_project().clone();
    let children: Vec<&str> = graph.children_projects(&root).into_iter().map(|d| d.name()).collect();
    assert_eq!(children, vec!["map", "list"]);
    let list = graph.find_project("assemble/list").unwrap().clone();
    let children: Vec<&str> = graph.children_projects(&list).into_iter().map(|d| d.name()).collect();
    assert_eq!(children, vec!["array", "linked"]);
}

#[test]
fn build_file_set_later_applies_to_existing_projects() {
    let mut graph = ProjectGraph::new("assemble");
    graph.project("map", |b| b.set_name("maps"));
    graph.set_default_build_file_name("build.assemble");
    let found = graph.find_project("map").unwrap();
    assert_eq!(found.name(), "maps");
    assert_eq!(found.build_file(), Some("assemble/map/build.assemble"));
    assert_eq!(found.directory(), "assemble/map");
    assert!(found.matches_dir("assemble/map"));
    assert!(!found.matches_dir("/assemble/map"));
}

#[test]
fn custom_directory_is_kept() {
    let mut graph = ProjectGraph::new("assemble");
    graph.project("web", |b| b.set_dir("/srv/site"));
    assert!(graph.find_project("/srv/site").is_some());
    assert!(graph.find_project("site").is_some());
    assert!(graph.find_project("assemble/web").is_none());
    let root = graph.root_project_mut();
    root.set_name("top");
    assert_eq!(graph.root_project().name(), "top");
}

#[test]
fn descriptor_text_shows_name_and_location() {
    let mut graph = ProjectGraph::new("assemble");
    assert_eq!(graph.root_project().to_string(), "assemble (KnownDirectory(\"assemble\"))");
    graph.set_default_build_file_name("build.assemble");
    assert_eq!(graph.root_project().to_string(), "assemble (KnownFile(\"assemble/build.assemble\"))");
}
