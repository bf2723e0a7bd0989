//! End-to-end behavior: parse, resolve, build and serialize.

use meml::defs::get_definitions;
use meml::defs::DefinitionMap;
use meml::error::MemlError;
use meml::manifest::compile_source;
use meml::manifest::DEPTH_LIMIT;
use meml::object::get_contents;
use meml::parser::parse_raw;

fn compile(src: &str) -> Result<String, MemlError> {
    compile_source(src, &DefinitionMap::new(), DEPTH_LIMIT)
}

#[test]
fn a_plain_object_compiles() {
    let out = compile("x { title: \"hello\" \"body\" }").unwrap();
    assert_eq!(out, "<x title=\"hello\">body</x>");
}

#[test]
fn constants_interpolate_into_strings() {
    let out = compile("let $greeting = \"hello\"\nx { t: \"$greeting world\" }").unwrap();
    assert_eq!(out, "<x t=\"hello world\"/>");
}

#[test]
fn a_later_constant_shadows_for_later_uses_only() {
    let src = "let $v = \"one\"\nlet $w = \"$v\"\nlet $v = \"two\"\nx { a: \"$w\" b: \"$v\" }";
    let out = compile(src).unwrap();
    assert_eq!(out, "<x a=\"one\" b=\"two\"/>");
}

#[test]
fn content_blocks_join_with_a_newline() {
    let out = compile("x { \"a\" \"b\" }").unwrap();
    assert_eq!(out, "<x>a\nb</x>");
}

#[test]
fn last_property_write_wins_and_keeps_position() {
    let out = compile("x { a: \"1\" b: \"2\" a: \"3\" }").unwrap();
    assert_eq!(out, "<x a=\"3\" b=\"2\"/>");
}

#[test]
fn templates_build_fresh_on_every_use() {
    let src = "let !card = card { kind: \"box\" }\nwrap { !card !card }";
    let out = compile(src).unwrap();
    assert_eq!(out, "<wrap><card kind=\"box\"/><card kind=\"box\"/></wrap>");
}

#[test]
fn built_objects_are_structurally_independent() {
    let src = "let !card = card { kind: \"box\" }\nwrap { !card !card }";
    let items = parse_raw(src).unwrap();
    let (locals, _exports, remaining) = get_definitions(&items, &DefinitionMap::new()).unwrap();
    let objs = get_contents(&remaining, &locals, &DefinitionMap::new(), DEPTH_LIMIT).unwrap();
    let mut wrap = objs.into_iter().next().unwrap();
    assert_eq!(wrap.children.len(), 2);
    let untouched = wrap.children[1].as_xml();
    wrap.children[0].properties.push(("extra".to_string(), "1".to_string()));
    wrap.children[0].content = "changed".to_string();
    assert_eq!(wrap.children[1].as_xml(), untouched);
    assert_eq!(wrap.children[1].as_xml(), "<card kind=\"box\"/>");
}

#[test]
fn functions_bind_arguments_by_name() {
    let src = "def pair(a, b) item { first: \"#a\" second: \"#b\" }\nlist { @pair(x, y) }";
    let out = compile(src).unwrap();
    assert_eq!(out, "<list><item first=\"x\" second=\"y\"/></list>");
}

#[test]
fn function_arity_is_checked_at_the_call() {
    let src = "def f(a) i { v: \"#a\" }\nx { @f(p, q) }";
    match compile(src) {
        Err(MemlError::ArityMismatch { name, expected, got }) => {
            assert_eq!(name, "f");
            assert_eq!(expected, 1);
            assert_eq!(got, 2);
        },
        other => panic!("expected an arity mismatch, got {:?}", other),
    }
}

#[test]
fn macros_expand_reparse_and_evaluate() {
    let src = "macro greet[2]<, > {p { \"#1 says #2\" }}\nbox { @greet(Alice, hi) }";
    let out = compile(src).unwrap();
    assert_eq!(out, "<box><p>Alice says hi</p></box>");
}

#[test]
fn trailing_components_land_on_the_generated_child() {
    let src = "macro wrapm[1] {w { \"#1\" }}\ntop { @wrapm(hi) { extra: \"1\" } }";
    let out = compile(src).unwrap();
    assert_eq!(out, "<top><w extra=\"1\">hi</w></top>");
}

#[test]
fn a_missing_constant_is_fatal() {
    match compile("x { t: \"$missing\" }") {
        Err(MemlError::UndefinedReference { name, .. }) => assert_eq!(name, "missing"),
        other => panic!("expected an undefined reference, got {:?}", other),
    }
}

#[test]
fn an_argument_reference_outside_a_frame_is_fatal() {
    match compile("x { t: \"#arg\" }") {
        Err(MemlError::UnexpectedArgumentReference { .. }) => {},
        other => panic!("expected an unexpected argument reference, got {:?}", other),
    }
}

#[test]
fn a_missing_template_is_fatal() {
    match compile("x { !nothere }") {
        Err(MemlError::UndefinedReference { name, .. }) => assert_eq!(name, "nothere"),
        other => panic!("expected an undefined reference, got {:?}", other),
    }
}

#[test]
fn exported_names_need_an_explicit_import() {
    let provider = "export let !card = card { kind: \"box\" }";
    let items = parse_raw(provider).unwrap();
    let (_locals, exports, _remaining) = get_definitions(&items, &DefinitionMap::new()).unwrap();

    let without = "wrap { !card }";
    match compile_source(without, &exports, DEPTH_LIMIT) {
        Err(MemlError::UndefinedReference { name, .. }) => assert_eq!(name, "card"),
        other => panic!("expected an undefined reference, got {:?}", other),
    }

    let with = "import object card\nwrap { !card }";
    let out = compile_source(with, &exports, DEPTH_LIMIT).unwrap();
    assert_eq!(out, "<wrap><card kind=\"box\"/></wrap>");
}

#[test]
fn exports_stay_invisible_to_their_own_file() {
    let provider = "export let !card = card { }";
    let items = parse_raw(provider).unwrap();
    let (locals, exports, _) = get_definitions(&items, &DefinitionMap::new()).unwrap();
    assert_eq!(locals.objects.len(), 1);
    assert_eq!(exports.objects.len(), 1);
}

#[test]
fn a_failed_import_lists_the_available_names_sorted() {
    let provider = "export let !zeta = z { }\nexport let !alpha = a { }";
    let items = parse_raw(provider).unwrap();
    let (_, exports, _) = get_definitions(&items, &DefinitionMap::new()).unwrap();
    match compile_source("import object missing\nx { }", &exports, DEPTH_LIMIT) {
        Err(MemlError::UndefinedReference { name, available, .. }) => {
            assert_eq!(name, "missing");
            assert_eq!(available, vec!["alpha".to_string(), "zeta".to_string()]);
        },
        other => panic!("expected an undefined reference, got {:?}", other),
    }
}

#[test]
fn imported_constants_interpolate() {
    let provider = "export let $brand = \"acme\"";
    let items = parse_raw(provider).unwrap();
    let (_, exports, _) = get_definitions(&items, &DefinitionMap::new()).unwrap();
    let out = compile_source(
        "import string brand\nx { t: \"$brand\" }",
        &exports,
        DEPTH_LIMIT,
    )
    .unwrap();
    assert_eq!(out, "<x t=\"acme\"/>");
}

#[test]
fn self_referential_templates_hit_the_depth_guard() {
    let src = "let !loop_t = a { !loop_t }\ntop { !loop_t }";
    match compile(src) {
        Err(MemlError::RecursionLimitExceeded) => {},
        other => panic!("expected the recursion limit, got {:?}", other),
    }
}

#[test]
fn malformed_input_is_a_parse_failure() {
    match compile("???") {
        Err(MemlError::ParseFailure { .. }) => {},
        other => panic!("expected a parse failure, got {:?}", other),
    }
}

#[test]
fn export_accepts_only_definitions() {
    match compile("export wrap { }") {
        Err(MemlError::ParseFailure { .. }) => {},
        other => panic!("expected a parse failure, got {:?}", other),
    }
}

#[test]
fn namespaced_objects_compile() {
    let out = compile("svg:rect { w: \"3\" }").unwrap();
    assert_eq!(out, "<svg:rect w=\"3\"/>");
}

#[test]
fn top_level_template_uses_compile() {
    let src = "let !note = note { \"hi\" }\n!note";
    let out = compile(src).unwrap();
    assert_eq!(out, "<note>hi</note>");
}
