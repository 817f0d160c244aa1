use assemble_core::identifier::{Id, InvalidId, TaskId};
use assemble_core::lazy_evaluation::{AnyProp, Prop, PropStore};
use assemble_core::plugins::extensions::{ExtensionContainer, ExtensionError};
use assemble_core::plugins::PluginError;
use assemble_core::project::ProjectError;

#[test]
fn invalid_id_message_quotes_the_text() {
    assert_eq!(InvalidId::new("2132").to_string(), "Invalid Task Identifier \"2132\"");
    assert_eq!(InvalidId::new("a\"b").to_string(), "Invalid Task Identifier \"a\\\"b\"");
}

#[test]
fn project_error_messages() {
    assert_eq!(
        ProjectError::NoIdentifiersFound("build".to_string()).to_string(),
        "No task identifier could be found for \"build\""
    );
    let ids = vec![TaskId::new("a:b").unwrap(), TaskId::new("c").unwrap()];
    assert_eq!(
        ProjectError::TooManyIdentifiersFound(ids.clone(), "b".to_string()).to_string(),
        "Too many task identifiers found for b. Found [\":a:b\", \":c\"]"
    );
    assert_eq!(
        ProjectError::IdentifierMissing(TaskId::new("root:build").unwrap()).to_string(),
        "Identifier Missing: :root:build"
    );
    assert_eq!(
        ProjectError::IdentifierMissingWithMaybes(TaskId::new("x").unwrap(), ids).to_string(),
        "Identifier Missing: :x (were you looking for [\":a:b\", \":c\"]?)"
    );
    assert_eq!(
        ProjectError::IdentifierMissingWithMaybes(TaskId::new("x").unwrap(), vec![]).to_string(),
        "Identifier Missing: :x (were you looking for []?)"
    );
    assert_eq!(
        ProjectError::InvalidIdentifier(InvalidId::new("9")).to_string(),
        "Invalid Task Identifier \"9\""
    );
    assert_eq!(ProjectError::SomeError {}.to_string(), "Inner Error { ... }");
    assert_eq!(ProjectError::InvalidFileType("i32".to_string()).to_string(), "Invalid Type for file: i32");
    assert_eq!(ProjectError::PoisonError.to_string(), "RwLock poisoned");
    assert_eq!(ProjectError::ActionsAlreadyQueried.to_string(), "Actions already queried");
    assert_eq!(ProjectError::NoSharedProjectSet.to_string(), "No shared project was set");
    assert_eq!(ProjectError::custom("went wrong").to_string(), "went wrong");
    assert_eq!(
        ProjectError::PluginError(PluginError::CouldNotCreatePlugin).to_string(),
        "Couldn't create the plugin"
    );
}

#[test]
fn extension_error_message() {
    let mut ext = ExtensionContainer::new();
    ext.add("test", 1i32).unwrap();
    let err = ext.add("test", 2i32).unwrap_err();
    assert_eq!(err.to_string(), "Extension with name \"test\" already registered");
    assert_eq!(
        ProjectError::ExtensionError(ExtensionError::AlreadyRegistered("x".to_string())).to_string(),
        "Extension with name \"x\" already registered"
    );
}

#[test]
fn property_texts() {
    let mut store = PropStore::new();
    let mut prop: Prop<i32> = Prop::new(Id::new("value").unwrap(), &mut store);
    assert_eq!(prop.display_text(&store), "<unset>");
    prop.set(15, &mut store).unwrap();
    assert_eq!(prop.display_text(&store), "15");
    let any = AnyProp::from_prop(prop);
    assert_eq!(any.debug_text(), "Property :value");
}
