//! Macro definition and expansion behavior.

use meml::error::MemlError;
use meml::macro_fn::MacroFn;
use meml::node::NodeKind;
use meml::parser::parse_raw;

fn greet() -> MacroFn {
    MacroFn {
        arg_count: 2,
        blueprint: "<p>#1 says #2</p>".to_string(),
        delimiter: ", ".to_string(),
        name: "greet".to_string(),
    }
}

#[test]
fn two_arguments_fill_the_blueprint() {
    let r = greet().call("Alice, hi".to_string(), String::new());
    assert_eq!(r.unwrap(), "<p>Alice says hi</p>");
}

#[test]
fn one_argument_is_an_arity_mismatch() {
    let r = greet().call("Alice".to_string(), String::new());
    match r {
        Err(MemlError::ArityMismatch { name, expected, got }) => {
            assert_eq!(name, "greet");
            assert_eq!(expected, 2);
            assert_eq!(got, 1);
        },
        other => panic!("expected an arity mismatch, got {:?}", other),
    }
}

#[test]
fn three_arguments_are_an_arity_mismatch() {
    let r = greet().call("a, b, c".to_string(), String::new());
    match r {
        Err(MemlError::ArityMismatch { expected, got, .. }) => {
            assert_eq!(expected, 2);
            assert_eq!(got, 3);
        },
        other => panic!("expected an arity mismatch, got {:?}", other),
    }
}

#[test]
fn call_site_delimiter_wins() {
    let r = greet().call("a, x;b".to_string(), ";".to_string());
    assert_eq!(r.unwrap(), "<p>a, x says b</p>");
}

#[test]
fn arguments_are_trimmed() {
    let r = greet().call("  spaced  ,  words  ".to_string(), String::new());
    assert_eq!(r.unwrap(), "<p>spaced says words</p>");
}

#[test]
fn an_argument_holding_a_later_placeholder_is_not_rescanned() {
    let m = MacroFn {
        arg_count: 2,
        blueprint: "#1#2".to_string(),
        delimiter: ",".to_string(),
        name: "m".to_string(),
    };
    let r = m.call("#2,b".to_string(), String::new());
    assert_eq!(r.unwrap(), "#2b");
}

#[test]
fn substitution_is_one_pass_regardless_of_argument_text() {
    let m = MacroFn {
        arg_count: 2,
        blueprint: "#2#1".to_string(),
        delimiter: ",".to_string(),
        name: "m".to_string(),
    };
    let r = m.call("#1, #2".to_string(), String::new());
    assert_eq!(r.unwrap(), "#2#1");
}

#[test]
fn the_lowest_placeholder_wins_on_adjacent_digits() {
    let m = MacroFn {
        arg_count: 1,
        blueprint: "#12".to_string(),
        delimiter: ",".to_string(),
        name: "m".to_string(),
    };
    let r = m.call("x".to_string(), String::new());
    assert_eq!(r.unwrap(), "x2");
}

#[test]
fn missing_placeholder_fails_at_call_time() {
    let m = MacroFn {
        arg_count: 2,
        blueprint: "only #1".to_string(),
        delimiter: ",".to_string(),
        name: "m".to_string(),
    };
    let r = m.call("a,b".to_string(), String::new());
    match r {
        Err(MemlError::MissingPlaceholder { name, index }) => {
            assert_eq!(name, "m");
            assert_eq!(index, 2);
        },
        other => panic!("expected a missing placeholder, got {:?}", other),
    }
}

#[test]
fn construct_reads_a_parsed_definition() {
    let items = parse_raw("macro m[2]<; > {a }{b #1 #2}").unwrap();
    assert_eq!(items.len(), 1);
    assert!(matches!(items[0].kind, NodeKind::MacroDef));
    let (key, m) = MacroFn::construct(&items[0]).unwrap();
    assert_eq!(key, "m");
    assert_eq!(m.arg_count, 2);
    assert_eq!(m.delimiter, "; ");
    assert_eq!(m.blueprint, "a b #1 #2");
}

#[test]
fn construct_defaults_the_delimiter_to_a_comma() {
    let items = parse_raw("macro m[1] {x #1}").unwrap();
    let (_, m) = MacroFn::construct(&items[0]).unwrap();
    assert_eq!(m.delimiter, ",");
}

#[test]
fn construct_rejects_a_node_of_the_wrong_kind() {
    let stray = meml::node::Node {
        kind: NodeKind::Ident,
        text: "oops".to_string(),
        children: Vec::new(),
        pos: 7,
    };
    match MacroFn::construct(&stray) {
        Err(MemlError::InternalInvariant { pos, text }) => {
            assert_eq!(pos, 7);
            assert_eq!(text, "oops");
        },
        other => panic!("expected an internal invariant violation, got {:?}", other),
    }
}

#[test]
fn construct_rejects_a_blueprint_without_placeholders() {
    let items = parse_raw("macro bad[2] {only #1}").unwrap();
    match MacroFn::construct(&items[0]) {
        Err(MemlError::MissingPlaceholder { index, .. }) => assert_eq!(index, 2),
        other => panic!("expected a missing placeholder, got {:?}", other),
    }
}
