use assemble_core::identifier::{Id, ProjectId, TaskId, TaskIdFactory};
use assemble_core::lazy_evaluation::Provider;

#[test]
fn from_string() {
    let id = Id::from_iter(&["project", "task"]).unwrap();
    let other_id = Id::new("project:task");
    assert!(other_id.is_ok());
    assert!(id.same_as(&other_id.unwrap()));
}

#[test]
fn to_string() {
    let id = Id::from_iter(&["project", "task"]).unwrap();
    assert_eq!(id.to_string(), ":project:task");

    let id = Id::from_iter(&["task"]).unwrap();
    assert_eq!(id.to_string(), ":task");
}

#[test]
fn ancestors() {
    let id = Id::new_uncheckable("root:child:task");
    let mut ancestors = id.ancestors().into_iter();
    assert_eq!(
        ancestors.next(),
        Some("root:child:task").map(Id::new_uncheckable).as_ref()
    );
    assert_eq!(
        ancestors.next(),
        Some("root:child").map(Id::new_uncheckable).as_ref()
    );
    assert_eq!(
        ancestors.next(),
        Some("root").map(Id::new_uncheckable).as_ref()
    );
    assert_eq!(ancestors.next(), None);
}

#[test]
fn is_shorthand() {
    let id = Id::from_iter(&["project", "task"]).unwrap();
    let shorthand = "project:task";
    assert!(id.is_shorthand(shorthand));
}

#[test]
fn invalid_identifiers_are_refused() {
    assert!(Id::new("root:inner:task").is_ok());
    let err = Id::new("&task").unwrap_err();
    assert_eq!(err.0, "&task");
    assert!(Id::new("2132").is_err());
    assert!(Id::new("root::task").is_err());
}

#[test]
fn join_and_concat() {
    let id = Id::new("root").unwrap();
    let joined = id.join("child:task").unwrap();
    assert_eq!(joined.to_string(), ":root:child:task");
    assert_eq!(joined.as_path(), "root/child/task");
    assert_eq!(joined.this(), "task");
    assert_eq!(joined.parent().unwrap().to_string(), ":root:child");
    assert!(id.join("9bad").is_err());
    let concat = Id::new("a").unwrap().concat(Id::new("b:c").unwrap());
    assert_eq!(concat.to_string(), ":a:b:c");
}

#[test]
fn task_ids_of_projects() {
    let project = ProjectId::new("root:sub").unwrap();
    let factory = TaskIdFactory::new(project);
    let task = factory.create("build").unwrap();
    assert_eq!(task.to_string(), ":root:sub:build");
    assert!(factory.create("not valid").is_err());
    let parsed = TaskId::from_str(":root:sub:build").unwrap();
    assert!(parsed.id().same_as(task.id()));
    assert!(TaskId::from_str("root").is_err());
}

#[test]
fn project_id_from_path() {
    let id = ProjectId::from_path("/home/user/project").unwrap();
    assert_eq!(id.to_string(), ":home:user:project");
    assert!(ProjectId::from_path("").is_err());
    assert_eq!(ProjectId::root().to_string(), ":root");
}

#[test]
fn task_prop_is_named_under_the_task() {
    let mut store: assemble_core::lazy_evaluation::PropStore<i32> = assemble_core::lazy_evaluation::PropStore::new();
    let task = TaskId::new("root:build").unwrap();
    let prop = task.prop::<i32>("output", &mut store).unwrap();
    assert_eq!(prop.id().to_string(), ":root:build:output");
    assert!(task.prop::<i32>("9output", &mut store).is_err());
}

#[test]
fn task_vec_prop_is_named_under_the_task() {
    let task = TaskId::new("root:build").unwrap();
    let store: assemble_core::lazy_evaluation::PropStore<i32> = assemble_core::lazy_evaluation::PropStore::new();
    let list = task.vec_prop::<i32>("sources").unwrap();
    assert_eq!(list.missing_message(&store), ":root:build:sources missing unknown value");
    assert!(task.vec_prop::<i32>("9sources").is_err());
}
