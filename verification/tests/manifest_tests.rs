//! Manifest section reading, input collection and the write decision.

use meml::defs::get_definitions;
use meml::defs::DefinitionMap;
use meml::error::MemlError;
use meml::manifest::collect_inputs;
use meml::manifest::compile_source;
use meml::manifest::manifest_sections;
use meml::manifest::output_name;
use meml::manifest::record_processed;
use meml::manifest::should_write;
use meml::manifest::wants_write;
use meml::manifest::ManifestSection;
use meml::manifest::SectionAction;
use meml::manifest::DEPTH_LIMIT;
use meml::parser::parse_raw;

fn sections_of(src: &str) -> Result<Vec<ManifestSection>, MemlError> {
    let items = parse_raw(src).unwrap();
    let (locals, _exports, remaining) = get_definitions(&items, &DefinitionMap::new())?;
    manifest_sections(&remaining, &locals, &DefinitionMap::new())
}

#[test]
fn a_none_section_parses_resolves_and_writes_nothing() {
    let secs = sections_of("build { action: \"none\" file: \"a.meml\" }").unwrap();
    assert_eq!(secs.len(), 1);
    let sec = &secs[0];
    assert_eq!(sec.name, "build");
    assert!(matches!(sec.action, SectionAction::Skip));
    assert_eq!(sec.files, vec!["a.meml".to_string()]);
    assert!(!wants_write(sec));

    // the input itself resolves, even though nothing is written
    let rendered = compile_source("a { \"ok\" }", &DefinitionMap::new(), DEPTH_LIMIT).unwrap();
    assert_eq!(rendered, "<a>ok</a>");
}

#[test]
fn an_xml_section_wants_writes() {
    let secs =
        sections_of("build { action: \"xml\" target: \"out\" file: \"a.meml\" }").unwrap();
    assert!(wants_write(&secs[0]));
    assert_eq!(secs[0].target, "out");
}

#[test]
fn file_and_directory_properties_repeat() {
    let src = "build { action: \"none\" file: \"b.meml\" file: \"a.meml\" directory: \"d1\" directory: \"d2\" }";
    let secs = sections_of(src).unwrap();
    assert_eq!(secs[0].files, vec!["b.meml".to_string(), "a.meml".to_string()]);
    assert_eq!(secs[0].directories, vec!["d1".to_string(), "d2".to_string()]);
}

#[test]
fn an_unknown_property_is_rejected() {
    match sections_of("build { action: \"none\" file: \"a.meml\" bogus: \"1\" }") {
        Err(MemlError::InvalidManifestSection { section, field }) => {
            assert_eq!(section, "build");
            assert_eq!(field, "bogus");
        },
        other => panic!("expected an invalid section, got {:?}", other),
    }
}

#[test]
fn a_missing_action_is_rejected() {
    match sections_of("build { file: \"a.meml\" }") {
        Err(MemlError::InvalidManifestSection { field, .. }) => assert_eq!(field, "action"),
        other => panic!("expected an invalid section, got {:?}", other),
    }
}

#[test]
fn an_unsupported_action_is_rejected() {
    match sections_of("build { action: \"zip\" file: \"a.meml\" }") {
        Err(MemlError::InvalidManifestSection { field, .. }) => assert_eq!(field, "action"),
        other => panic!("expected an invalid section, got {:?}", other),
    }
}

#[test]
fn a_writing_section_needs_a_target() {
    match sections_of("build { action: \"xml\" file: \"a.meml\" }") {
        Err(MemlError::InvalidManifestSection { field, .. }) => assert_eq!(field, "target"),
        other => panic!("expected an invalid section, got {:?}", other),
    }
}

#[test]
fn a_section_needs_an_input() {
    match sections_of("build { action: \"none\" }") {
        Err(MemlError::InvalidManifestSection { field, .. }) => assert_eq!(field, "input"),
        other => panic!("expected an invalid section, got {:?}", other),
    }
}

#[test]
fn manifest_constants_reach_section_properties() {
    let secs =
        sections_of("let $t = \"out\"\nbuild { action: \"xml\" target: \"$t\" file: \"a.meml\" }")
            .unwrap();
    assert_eq!(secs[0].target, "out");
}

#[test]
fn inputs_are_filtered_sorted_and_deduplicated() {
    let files = vec!["b.meml".to_string(), "a.meml".to_string(), "b.meml".to_string()];
    let scanned = vec![
        "c.meml".to_string(),
        "notes.txt".to_string(),
        "a.meml".to_string(),
    ];
    let inputs = collect_inputs(&files, &scanned);
    assert_eq!(
        inputs,
        vec!["a.meml".to_string(), "b.meml".to_string(), "c.meml".to_string()]
    );
}

#[test]
fn output_names_take_the_override_or_the_default() {
    assert_eq!(output_name(&"page".to_string(), &"xml".to_string()), "page.xml");
    assert_eq!(output_name(&"page".to_string(), &String::new()), "page.meml");
}

#[test]
fn only_changed_targets_are_written() {
    let rendered = "<a/>".to_string();
    assert!(should_write(None, &rendered));
    assert!(should_write(Some(&"<b/>".to_string()), &rendered));
    assert!(!should_write(Some(&"<a/>".to_string()), &rendered));
}

#[test]
fn a_second_run_over_unchanged_sources_writes_nothing() {
    let src = "let $v = \"1\"\nx { n: \"$v\" }";
    let first = compile_source(src, &DefinitionMap::new(), DEPTH_LIMIT).unwrap();
    let second = compile_source(src, &DefinitionMap::new(), DEPTH_LIMIT).unwrap();
    assert_eq!(first, second);
    assert!(!should_write(Some(&first), &second));
}

#[test]
fn processed_basenames_become_an_injectable_constant() {
    let mut external = DefinitionMap::new();
    let basenames = vec!["a".to_string(), "b".to_string()];
    record_processed(&mut external, &"built".to_string(), &basenames);
    let out = compile_source("x { t: \"$built\" }", &external, DEPTH_LIMIT).unwrap();
    assert_eq!(out, "<x t=\"a,b\"/>");
}
