use assemble_core::flow::attributes::{
    AttributeCompatibilityChain, AttributeSchema, CandidatesFn, CompatibilityFn, Equality, IsCompatible,
    MultipleCandidatesChain,
};
use assemble_core::flow::output::VariantHandler;
use assemble_core::flow::shared::ConfigurableArtifact;
use assemble_core::identifier::TaskId;
use assemble_core::named::Named;

#[test]
fn artifact_from_path() {
    let artifact = ConfigurableArtifact::from_path("artifact.zip");
    assert_eq!(artifact.name(), "artifact");
    assert_eq!(artifact.extension(), "zip");
}

#[test]
fn artifact_file_and_type() {
    let mut artifact = ConfigurableArtifact::from_path("dir/lib.tar.gz");
    assert_eq!(artifact.name(), "lib.tar");
    assert_eq!(artifact.extension(), "gz");
    assert_eq!(artifact.artifact_type(), "gz");
    assert_eq!(artifact.file(), "lib.tar.gz");
    artifact.set_classifier("sources");
    artifact.set_artifact_type("archive");
    assert_eq!(artifact.file(), "lib.tar-sources.gz");
    assert_eq!(artifact.artifact_type(), "archive");
    artifact.built_by(TaskId::new("root:build").unwrap());
}

#[derive(PartialEq, Clone, Debug)]
pub struct Usage;

#[test]
fn java_style_resolution() {
    let mut compatibility: AttributeSchema<Usage> = AttributeSchema::new();
    compatibility
        .compatibility_mut()
        .add(IsCompatible::new("CLASSES", &["CLASSES", "JAR"]));
    compatibility.disambiguation_mut().add(Equality);

    let classes = Named::new("CLASSES", Usage);
    let jar = Named::new("JAR", Usage);

    let compat = compatibility.find_match(&classes, vec![&jar]);
    assert_eq!(compat.unwrap().name(), "JAR");

    let compat = compatibility.find_match(&classes, vec![&jar, &classes]);
    assert_eq!(compat.unwrap().name(), "CLASSES");

    let compat = compatibility.find_match(&jar, vec![&jar, &classes]);
    assert_eq!(compat.unwrap().name(), "JAR");

    let compat = compatibility.find_match(&jar, vec![&classes]);
    assert!(compat.is_none());
}

#[test]
fn ordered_rules_compare_values() {
    let mut schema: AttributeSchema<u32> = AttributeSchema::new();
    schema.compatibility_mut().ordered();
    let low = Named::new("v", 1u32);
    let high = Named::new("v", 2u32);
    assert!(schema.compatibility().is_compatible(&high, &low));
    assert!(!schema.compatibility().is_compatible(&low, &high));

    let mut rev: AttributeSchema<u32> = AttributeSchema::new();
    rev.compatibility_mut().ordered_rev();
    assert!(rev.compatibility().is_compatible(&low, &high));
    assert!(!rev.compatibility().is_compatible(&high, &low));
}

#[test]
fn no_rules_means_equality() {
    let schema: AttributeSchema<u32> = AttributeSchema::new();
    let a = Named::new("a", 1u32);
    let b = Named::new("a", 1u32);
    let c = Named::new("c", 1u32);
    assert!(schema.compatibility().is_compatible(&a, &b));
    assert!(!schema.compatibility().is_compatible(&a, &c));
    assert!(schema.find_match(&a, vec![&c]).is_none());
    assert_eq!(schema.find_match(&a, vec![&c, &b]).unwrap().name(), "a");
}

#[test]
fn no_rules_and_two_equal_producers_give_no_match() {
    let schema: AttributeSchema<u32> = AttributeSchema::new();
    let a = Named::new("a", 1u32);
    let b = Named::new("a", 1u32);
    let d = Named::new("a", 1u32);
    assert!(schema.find_match(&a, vec![&b, &d]).is_none());
    assert!(schema.find_match(&a, vec![]).is_none());
}

#[test]
fn variants_default() {
    let mut handler = VariantHandler::new();
    handler.add("jar", ConfigurableArtifact::from_path("out.jar"));
    assert_eq!(handler.default(), "jar");
    handler.add("zip", ConfigurableArtifact::from_path("out.zip"));
    handler.set_default("zip");
    assert_eq!(handler.default(), "zip");
    assert!(handler.get_artifact("jar").is_some());
    assert!(handler.get_artifact("war").is_none());
}

#[test]
fn add_with_configures_the_artifact() {
    let mut handler = VariantHandler::new();
    handler.add_with("jar", ConfigurableArtifact::from_path("out/lib.jar"), |a: &mut ConfigurableArtifact| {
        a.set_classifier("sources")
    });
    let artifact = handler.get_artifact("jar").unwrap();
    assert_eq!(artifact.file(), "lib-sources.jar");
    assert_eq!(artifact.artifact_type(), "jar");
}

#[test]
fn from_artifact_copies_its_parts() {
    let mut source = ConfigurableArtifact::new("app".to_string(), "zip".to_string());
    source.set_classifier("dist");
    source.set_artifact_type("archive");
    let copy = ConfigurableArtifact::from_artifact(source);
    assert_eq!(copy.name(), "app");
    assert_eq!(copy.classifier(), Some("dist".to_string()));
    assert_eq!(copy.extension(), "zip");
    assert_eq!(copy.artifact_type(), "archive");
}

#[test]
fn closure_rules_decide_compatibility() {
    let mut chain: AttributeCompatibilityChain<i32> = AttributeCompatibilityChain::new();
    chain.add(CompatibilityFn::new(|_: &Named<i32>, _: &Named<i32>| Some(true)));
    let p = Named::new("a", 1);
    let c = Named::new("b", 2);
    assert!(chain.is_compatible(&p, &c));

    let mut refusing: AttributeCompatibilityChain<i32> = AttributeCompatibilityChain::new();
    refusing.add(CompatibilityFn::new(|_: &Named<i32>, _: &Named<i32>| Some(false)));
    let x = Named::new("a", 1);
    assert!(!refusing.is_compatible(&x, &x));
}

#[test]
fn closure_rules_disambiguate() {
    let mut chain: MultipleCandidatesChain<i32> = MultipleCandidatesChain::new();
    chain.add(CandidatesFn::new(|_: &Named<i32>, candidates: &[&Named<i32>]| {
        if candidates.len() > 1 { Some(1usize) } else { None }
    }));
    let a = Named::new("a", 1);
    let b = Named::new("b", 2);
    let c = Named::new("c", 3);
    assert_eq!(chain.try_disambiguate(&c, vec![&a, &b]).unwrap().name(), "b");
    assert!(chain.try_disambiguate(&c, vec![&a]).is_none());
}
