//! Serialization behavior of the output object tree.

use meml::object::Object;

fn leaf(name: &str, content: &str) -> Object {
    Object {
        namespace: String::new(),
        name: name.to_string(),
        properties: Vec::new(),
        children: Vec::new(),
        content: content.to_string(),
    }
}

#[test]
fn content_renders_between_tags() {
    let o = leaf("name", "x");
    assert_eq!(o.as_xml(), "<name>x</name>");
}

#[test]
fn empty_object_self_closes() {
    let o = leaf("name", "");
    assert_eq!(o.as_xml(), "<name/>");
}

#[test]
fn properties_render_in_insertion_order() {
    let mut o = leaf("a", "");
    o.properties.push(("k1".to_string(), "v1".to_string()));
    o.properties.push(("k2".to_string(), "v2".to_string()));
    assert_eq!(o.as_xml(), "<a k1=\"v1\" k2=\"v2\"/>");
}

#[test]
fn namespace_qualifies_the_tag() {
    let mut o = leaf("item", "");
    o.namespace = "ns".to_string();
    assert_eq!(o.as_xml(), "<ns:item/>");
}

#[test]
fn children_make_content_inert() {
    let mut o = leaf("outer", "ignored");
    o.children.push(leaf("inner", "kept"));
    assert_eq!(o.as_xml(), "<outer><inner>kept</inner></outer>");
}

#[test]
fn rendering_twice_is_byte_identical() {
    let mut o = leaf("a", "");
    o.properties.push(("p".to_string(), "q".to_string()));
    o.children.push(leaf("b", "c"));
    let first = o.as_xml();
    let second = o.as_xml();
    assert_eq!(first, second);
    assert_eq!(first, "<a p=\"q\"><b>c</b></a>");
}

#[test]
fn qname_joins_namespace_and_name() {
    let mut o = leaf("n", "");
    assert_eq!(o.qname(), "n");
    o.namespace = "x".to_string();
    assert_eq!(o.qname(), "x:n");
}

#[test]
fn empty_named_starts_blank() {
    let o = Object::empty_named("tag".to_string());
    assert_eq!(o.as_xml(), "<tag/>");
}
