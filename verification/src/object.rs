//! The output object tree and its serializer.
//!
//! An [`Object`] is one output node: a name with an optional namespace
//! qualifier, ordered properties with unique keys (last write wins), child
//! objects in source order, and text content. Non-empty children make the
//! content inert for serialization.

use vstd::prelude::*;

use crate::defs::pool_get;
use crate::defs::pool_lookup;
use crate::defs::DefMapV;
use crate::defs::DefV;
use crate::defs::Definition;
use crate::defs::DefinitionMap;
use crate::error::ErrV;
use crate::error::MemlError;
use crate::function::FunctionV;
use crate::macro_fn::macro_fill;
use crate::node::Node;
use crate::node::NodeKind;
use crate::node::NodeV;
use crate::parser::parse_fragment;
use crate::parser::parse_fragment_v;
use crate::string::frame_view;
use crate::string::interp_string_v;
use crate::string::parse_string;
use crate::text::split_str;
use crate::text::split_v;
use crate::text::trim_str;
use crate::text::trim_v;

verus! {

/// Ghost mirror of [`Object`].
pub struct ObjectV {
    pub namespace: Seq<char>,
    pub name: Seq<char>,
    pub properties: Seq<(Seq<char>, Seq<char>)>,
    pub children: Seq<ObjectV>,
    pub content: Seq<char>,
}

/// One output node.
#[derive(Debug)]
pub struct Object {
    /// The optional namespace qualifier; empty when absent.
    pub namespace: String,
    /// The element name.
    pub name: String,
    /// The properties, in insertion order, with unique keys.
    pub properties: Vec<(String, String)>,
    /// The child objects, in source order.
    pub children: Vec<Object>,
    /// The text content; inert when `children` is non-empty.
    pub content: String,
}

/// The view of a property list.
pub open spec fn props_view(props: Vec<(String, String)>) -> Seq<(Seq<char>, Seq<char>)> {
    Seq::new(props@.len(), |i: int| (props@[i].0@, props@[i].1@))
}

/// The view of an object: the same tree over ghost types.
pub open spec fn object_view(o: Object) -> ObjectV
    decreases o,
    via object_view_decreases
{
    ObjectV {
        namespace: o.namespace@,
        name: o.name@,
        properties: props_view(o.properties),
        children: Seq::new(
            o.children@.len(),
            |i: int|
                if 0 <= i < o.children@.len() {
                    object_view(o.children@[i])
                } else {
                    empty_object_view()
                },
        ),
        content: o.content@,
    }
}

/// An object view with no name and nothing in it.
pub open spec fn empty_object_view() -> ObjectV {
    ObjectV {
        namespace: Seq::<char>::empty(),
        name: Seq::<char>::empty(),
        properties: Seq::<(Seq<char>, Seq<char>)>::empty(),
        children: Seq::<ObjectV>::empty(),
        content: Seq::<char>::empty(),
    }
}

#[via_fn]
proof fn object_view_decreases(o: Object) {
    broadcast use vstd::std_specs::vec::axiom_vec_decreases_to_view;
    broadcast use vstd::seq::axiom_seq_index_decreases;

    assert forall|i: int| 0 <= i < o.children@.len() implies decreases_to!(
        o => o.children@[i]
    ) by {
        assert(decreases_to!(o => o.children));
        assert(decreases_to!(o.children => o.children@));
        assert(decreases_to!(o.children@ => o.children@[i]));
    }
}

impl View for Object {
    type V = ObjectV;

    open spec fn view(&self) -> ObjectV {
        object_view(*self)
    }
}

impl DeepView for Object {
    type V = ObjectV;

    open spec fn deep_view(&self) -> ObjectV {
        object_view(*self)
    }
}

/// What one level of an object's view holds: its own fields, and each
/// child's view in place.
pub broadcast proof fn lemma_object_view_fields(o: Object)
    ensures
        (#[trigger] object_view(o)).namespace == o.namespace@,
        object_view(o).name == o.name@,
        object_view(o).properties == props_view(o.properties),
        object_view(o).content == o.content@,
        object_view(o).children.len() == o.children@.len(),
        forall|i: int|
            0 <= i < o.children@.len() ==> object_view(o).children[i] == object_view(
                o.children@[i],
            ),
{
    assert forall|i: int|
        0 <= i < o.children@.len() implies object_view(o).children[i] == object_view(
        o.children@[i],
    ) by {
        assert(object_view(o).children[i] == object_view(o.children@[i]));
    }
}

/// The tag name as serialized: `name`, or `namespace:name` when a namespace
/// is present.
pub open spec fn qname_of(o: ObjectV) -> Seq<char> {
    if o.namespace.len() == 0 {
        o.name
    } else {
        o.namespace + seq![':'] + o.name
    }
}

/// The serialized property list: ` key="value"` for each property, in stored
/// order.
pub open spec fn props_xml(props: Seq<(Seq<char>, Seq<char>)>) -> Seq<char>
    decreases props.len(),
{
    if props.len() == 0 {
        Seq::<char>::empty()
    } else {
        props_xml(props.drop_last()) + seq![' '] + props.last().0 + seq!['=', '"']
            + props.last().1 + seq!['"']
    }
}

/// The concatenated serializations of a child list, in order.
pub open spec fn children_xml(cs: Seq<ObjectV>) -> Seq<char>
    decreases cs, 1int,
{
    if cs.len() == 0 {
        Seq::<char>::empty()
    } else {
        children_xml(cs.drop_last()) + xml_of(cs.last())
    }
}

/// The serialized body: the children when there are any, else the content.
pub open spec fn body_xml(o: ObjectV) -> Seq<char>
    decreases o, 1int,
{
    if o.children.len() > 0 {
        children_xml(o.children)
    } else {
        o.content
    }
}

/// The full serialization of one object: `<qname props>body</qname>`, or the
/// self-closing `<qname props/>` when the body is empty. A function of the
/// tree alone, so repeated renderings are byte-identical.
pub open spec fn xml_of(o: ObjectV) -> Seq<char>
    decreases o, 2int,
{
    let head = seq!['<'] + qname_of(o) + props_xml(o.properties);
    if body_xml(o).len() == 0 {
        head + seq!['/', '>']
    } else {
        head + seq!['>'] + body_xml(o) + seq!['<', '/'] + qname_of(o) + seq!['>']
    }
}

/// The keys of a property list, in stored order.
pub open spec fn prop_keys(props: Seq<(Seq<char>, Seq<char>)>) -> Seq<Seq<char>> {
    Seq::new(props.len(), |i: int| props[i].0)
}

/// Law: property order equals insertion order regardless of insertion
/// count. Writing an existing key again keeps the key order unchanged; only
/// a new key appends to it.
pub proof fn lemma_upsert_keeps_order(
    props: Seq<(Seq<char>, Seq<char>)>,
    key: Seq<char>,
    value: Seq<char>,
)
    ensures
        (exists|j: int| 0 <= j < props.len() && (#[trigger] props[j]).0 == key) ==> prop_keys(
            upsert_v(props, key, value),
        ) == prop_keys(props),
        !(exists|j: int| 0 <= j < props.len() && (#[trigger] props[j]).0 == key) ==> prop_keys(
            upsert_v(props, key, value),
        ) == prop_keys(props).push(key),
    decreases props.len(),
{
    if props.len() == 0 {
        assert(prop_keys(upsert_v(props, key, value)) =~= prop_keys(props).push(key));
    } else if props[0].0 == key {
        assert(prop_keys(seq![(key, value)] + props.drop_first()) =~= prop_keys(props));
    } else {
        lemma_upsert_keeps_order(props.drop_first(), key, value);
        let ub = upsert_v(props.drop_first(), key, value);
        if exists|j: int| 0 <= j < props.len() && (#[trigger] props[j]).0 == key {
            let j = choose|j: int| 0 <= j < props.len() && (#[trigger] props[j]).0 == key;
            assert(props.drop_first()[j - 1].0 == key);
            assert(prop_keys(ub) == prop_keys(props.drop_first()));
            assert forall|t: int|
                0 <= t < props.len() implies (seq![props[0]] + ub)[t].0 == props[t].0 by {
                if t >= 1 {
                    assert(prop_keys(ub)[t - 1] == ub[t - 1].0);
                    assert(prop_keys(props.drop_first())[t - 1] == props.drop_first()[t - 1].0);
                    assert(props.drop_first()[t - 1] == props[t]);
                }
            }
            assert(prop_keys(seq![props[0]] + ub) =~= prop_keys(props));
        } else {
            assert forall|j: int|
                0 <= j < props.drop_first().len() implies (#[trigger] props.drop_first()[j]).0
                != key by {
                assert(props.drop_first()[j] == props[j + 1]);
            }
            assert(prop_keys(ub) == prop_keys(props.drop_first()).push(key));
            assert forall|t: int|
                0 <= t < props.len() + 1 implies (seq![props[0]] + ub)[t].0 == prop_keys(
                props,
            ).push(key)[t] by {
                if t >= 1 {
                    assert(prop_keys(ub)[t - 1] == ub[t - 1].0);
                    if t < props.len() {
                        assert(prop_keys(props.drop_first()).push(key)[t - 1] == prop_keys(
                            props.drop_first(),
                        )[t - 1]);
                        assert(prop_keys(props.drop_first())[t - 1] == props.drop_first()[t
                            - 1].0);
                        assert(props.drop_first()[t - 1] == props[t]);
                    }
                }
            }
            assert(prop_keys(seq![props[0]] + ub) =~= prop_keys(props).push(key));
        }
    }
}

/// Law: an object with no namespace, no properties and no children renders
/// as `<name>content</name>`, and with empty content as the self-closing
/// `<name/>`.
pub proof fn lemma_render_leaf(o: ObjectV)
    requires
        o.namespace.len() == 0,
        o.properties.len() == 0,
        o.children.len() == 0,
    ensures
        o.content.len() > 0 ==> xml_of(o) == seq!['<'] + o.name + seq!['>'] + o.content + seq![
            '<',
            '/',
        ] + o.name + seq!['>'],
        o.content.len() == 0 ==> xml_of(o) == seq!['<'] + o.name + seq!['/', '>'],
{
    assert(body_xml(o) == o.content);
    if o.content.len() > 0 {
        assert(xml_of(o) =~= seq!['<'] + o.name + seq!['>'] + o.content + seq!['<', '/'] + o.name
            + seq!['>']);
    } else {
        assert(xml_of(o) =~= seq!['<'] + o.name + seq!['/', '>']);
    }
}

/// Law: rendering is deterministic. Any two serializations of one tree are
/// byte-identical, since each equals `xml_of` of that tree; nothing about
/// the text depends on hash order or any other run-to-run state.
pub proof fn lemma_render_deterministic(a: Seq<char>, b: Seq<char>, o: ObjectV)
    requires
        a == xml_of(o),
        b == xml_of(o),
    ensures
        a == b,
{
}

/// A deferred object builder: it captures only the node handle of an object
/// template and re-builds a fresh object against whatever pools are active
/// when it is invoked. No constructed instance is ever cached or shared.
#[derive(Debug)]
pub struct ObjectBuilder {
    /// The captured template node.
    pub node: Node,
}

impl Clone for ObjectBuilder {
    /// A deep copy; the copy captures a node with the same view.
    fn clone(&self) -> (r: ObjectBuilder)
        ensures
            r.node@ == self.node@,
    {
        ObjectBuilder { node: self.node.clone() }
    }
}

impl Object {
    /// An object with the given name and nothing else.
    pub fn empty_named(name: String) -> (r: Object)
        ensures
            r@ == (ObjectV {
                namespace: Seq::<char>::empty(),
                name: name@,
                properties: Seq::<(Seq<char>, Seq<char>)>::empty(),
                children: Seq::<ObjectV>::empty(),
                content: Seq::<char>::empty(),
            }),
    {
        let r = Object {
            namespace: String::new(),
            name,
            properties: Vec::new(),
            children: Vec::new(),
            content: String::new(),
        };
        proof {
            assert(r@.properties =~= Seq::<(Seq<char>, Seq<char>)>::empty());
            assert(r@.children =~= Seq::<ObjectV>::empty());
        }
        r
    }

    /// The serialized tag name.
    pub fn qname(&self) -> (r: String)
        ensures
            r@ == qname_of(self@),
    {
        if self.namespace.as_str().is_empty() {
            self.name.clone()
        } else {
            let mut r = self.namespace.clone();
            r.append(":");
            r.append(self.name.as_str());
            proof {
                reveal_strlit(":");
                assert(":"@ =~= seq![':']);
                assert(r@ =~= qname_of(self@));
            }
            r
        }
    }

    /// Serializes this object, and it alone, to markup text.
    pub fn as_xml(&self) -> (r: String)
        ensures
            r@ == xml_of(self@),
        decreases *self,
    {
        let q = self.qname();

        let mut head = String::new();
        head.append("<");
        head.append(q.as_str());
        proof {
            reveal_strlit("<");
            assert("<"@ =~= seq!['<']);
            assert(self@.properties.subrange(0, 0) =~= Seq::<(Seq<char>, Seq<char>)>::empty());
            assert(head@ =~= seq!['<'] + qname_of(self@) + props_xml(
                self@.properties.subrange(0, 0),
            ));
        }
        let mut i: usize = 0;
        while i < self.properties.len()
            invariant
                i <= self.properties.len(),
                head@ == seq!['<'] + qname_of(self@) + props_xml(
                    self@.properties.subrange(0, i as int),
                ),
                self@ == object_view(*self),
            decreases self.properties.len() - i,
        {
            proof {
                reveal_strlit(" ");
                reveal_strlit("=\"");
                reveal_strlit("\"");
            }
            head.append(" ");
            head.append(self.properties[i].0.as_str());
            head.append("=\"");
            head.append(self.properties[i].1.as_str());
            head.append("\"");
            proof {
                let pre = self@.properties.subrange(0, i as int);
                let cur = self@.properties.subrange(0, i + 1 as int);
                assert(cur.drop_last() =~= pre);
                assert(cur.last() == self@.properties[i as int]);
                assert(" "@ =~= seq![' ']);
                assert("=\""@ =~= seq!['=', '"']);
                assert("\""@ =~= seq!['"']);
                assert(head@ =~= seq!['<'] + qname_of(self@) + props_xml(cur));
            }
            i = i + 1;
        }
        proof {
            assert(self@.properties.subrange(0, self.properties.len() as int)
                =~= self@.properties);
        }

        let mut body = String::new();
        if self.children.len() == 0 {
            body = self.content.clone();
        } else {
            let mut j: usize = 0;
            while j < self.children.len()
                invariant
                    j <= self.children.len(),
                    body@ == children_xml(self@.children.subrange(0, j as int)),
                    self@ == object_view(*self),
                decreases self.children.len() - j,
            {
                let child_xml = self.children[j].as_xml();
                body.append(child_xml.as_str());
                proof {
                    let pre = self@.children.subrange(0, j as int);
                    let cur = self@.children.subrange(0, j + 1 as int);
                    assert(cur.drop_last() =~= pre);
                    assert(cur.last() == self@.children[j as int]);
                    assert(body@ =~= children_xml(cur));
                }
                j = j + 1;
            }
            proof {
                assert(self@.children.subrange(0, self.children.len() as int)
                    =~= self@.children);
                assert(self@.children.len() > 0);
            }
        }
        proof {
            assert(body@ == body_xml(self@));
        }

        let mut r = head;
        if body.as_str().is_empty() {
            r.append("/>");
            proof {
                reveal_strlit("/>");
                assert("/>"@ =~= seq!['/', '>']);
                assert(body_xml(self@).len() == 0);
                assert(r@ =~= xml_of(self@));
            }
        } else {
            r.append(">");
            r.append(body.as_str());
            r.append("</");
            r.append(q.as_str());
            r.append(">");
            proof {
                reveal_strlit(">");
                reveal_strlit("</");
                assert(">"@ =~= seq!['>']);
                assert("</"@ =~= seq!['<', '/']);
                assert(r@ =~= xml_of(self@));
            }
        }
        r
    }
}

/// `props` with `key` bound to `value`: an existing key keeps its position
/// and takes the new value (last write wins); a new key is appended.
pub open spec fn upsert_v(
    props: Seq<(Seq<char>, Seq<char>)>,
    key: Seq<char>,
    value: Seq<char>,
) -> Seq<(Seq<char>, Seq<char>)>
    decreases props.len(),
{
    if props.len() == 0 {
        seq![(key, value)]
    } else if props[0].0 == key {
        seq![(key, value)] + props.drop_first()
    } else {
        seq![props[0]] + upsert_v(props.drop_first(), key, value)
    }
}

/// Upserting an absent key appends it.
pub proof fn lemma_upsert_absent(
    props: Seq<(Seq<char>, Seq<char>)>,
    key: Seq<char>,
    value: Seq<char>,
)
    requires
        forall|j: int| 0 <= j < props.len() ==> (#[trigger] props[j]).0 != key,
    ensures
        upsert_v(props, key, value) == props.push((key, value)),
    decreases props.len(),
{
    if props.len() > 0 {
        lemma_upsert_absent(props.drop_first(), key, value);
        assert(seq![props[0]] + props.drop_first().push((key, value)) =~= props.push(
            (key, value),
        ));
    } else {
        assert(seq![(key, value)] =~= props.push((key, value)));
    }
}

/// Upserting a key present first at `i` updates that entry in place.
pub proof fn lemma_upsert_found(
    props: Seq<(Seq<char>, Seq<char>)>,
    key: Seq<char>,
    value: Seq<char>,
    i: int,
)
    requires
        0 <= i < props.len(),
        props[i].0 == key,
        forall|j: int| 0 <= j < i ==> (#[trigger] props[j]).0 != key,
    ensures
        upsert_v(props, key, value) == props.update(i, (key, value)),
    decreases i,
{
    if i == 0 {
        assert(seq![(key, value)] + props.drop_first() =~= props.update(0, (key, value)));
    } else {
        lemma_upsert_found(props.drop_first(), key, value, i - 1);
        assert(props.drop_first().update(i - 1, (key, value)) =~= props.update(
            i,
            (key, value),
        ).drop_first());
        assert(seq![props[0]] + props.update(i, (key, value)).drop_first() =~= props.update(
            i,
            (key, value),
        ));
    }
}

/// `o` with one property written.
pub open spec fn with_prop_v(o: ObjectV, key: Seq<char>, value: Seq<char>) -> ObjectV {
    ObjectV {
        namespace: o.namespace,
        name: o.name,
        properties: upsert_v(o.properties, key, value),
        children: o.children,
        content: o.content,
    }
}

/// `o` with one more child.
pub open spec fn with_child_v(o: ObjectV, child: ObjectV) -> ObjectV {
    ObjectV {
        namespace: o.namespace,
        name: o.name,
        properties: o.properties,
        children: o.children.push(child),
        content: o.content,
    }
}

/// `o` with one more content block: blocks join with a newline.
pub open spec fn with_content_v(o: ObjectV, s: Seq<char>) -> ObjectV {
    ObjectV {
        namespace: o.namespace,
        name: o.name,
        properties: o.properties,
        children: o.children,
        content: if o.content.len() == 0 {
            s
        } else {
            o.content + seq!['\n'] + s
        },
    }
}

/// What calling a function yields: the argument count must equal the
/// parameter count exactly, and the captured body is built fresh against the
/// caller's pools with the parameters as the argument frame. A standalone
/// call carries no use-site name, so its arity error names nothing.
pub open spec fn function_call_v(
    f: FunctionV,
    args: Seq<Seq<char>>,
    locals: DefMapV,
    external: DefMapV,
    fuel: nat,
) -> Result<ObjectV, ErrV> {
    if args.len() != f.arg_names.len() {
        Err(ErrV::ArityMismatch {
            name: Seq::<char>::empty(),
            expected: f.arg_names.len() as int,
            got: args.len() as int,
        })
    } else {
        eval_object_v(
            f.body,
            locals,
            external,
            Some(Seq::new(args.len(), |k: int| (f.arg_names[k], args[k]))),
            fuel,
        )
    }
}

/// What building an object node yields: its namespace and name, then its
/// components folded left to right.
pub open spec fn eval_object_v(
    n: NodeV,
    locals: DefMapV,
    external: DefMapV,
    frame: Option<Seq<(Seq<char>, Seq<char>)>>,
    fuel: nat,
) -> Result<ObjectV, ErrV>
    decreases fuel, 1nat, 0nat,
{
    if fuel == 0 {
        Err(ErrV::RecursionLimitExceeded)
    } else if !(n.kind == NodeKind::Object && n.children.len() >= 2 && n.children[0].kind
        == NodeKind::Ident && n.children[1].kind == NodeKind::Ident) {
        Err(ErrV::InternalInvariant { pos: n.pos, text: n.text })
    } else {
        let base = ObjectV {
            namespace: n.children[0].text,
            name: n.children[1].text,
            properties: Seq::<(Seq<char>, Seq<char>)>::empty(),
            children: Seq::<ObjectV>::empty(),
            content: Seq::<char>::empty(),
        };
        eval_comps_v(base, n.children, 2, locals, external, frame, fuel)
    }
}

/// What one use yields as a child object: a nested object is built in place;
/// a `!name` template use looks `name` up in Local only and builds the
/// captured node fresh without a frame; a `@name(...)` use looks `name` up
/// in the Local callables only and either calls the function with the split,
/// trimmed arguments, or fills the macro's blueprint, re-parses the text as
/// a standalone fragment, and evaluates it at the use site; trailing
/// components after a call are folded into the generated child. A missing
/// template or callable name is fatal, as a missing constant is.
pub open spec fn eval_use_v(
    c: NodeV,
    locals: DefMapV,
    external: DefMapV,
    frame: Option<Seq<(Seq<char>, Seq<char>)>>,
    fuel: nat,
) -> Result<ObjectV, ErrV>
    decreases fuel, 2nat, 0nat,
{
    if c.kind == NodeKind::Object {
        eval_object_v(c, locals, external, frame, fuel)
    } else if c.kind == NodeKind::TemplateUse {
        if !(c.children.len() == 1 && c.children[0].kind == NodeKind::Ident) {
            Err(ErrV::InternalInvariant { pos: c.pos, text: c.text })
        } else {
            let name = c.children[0].text;
            match pool_get(locals.objects, name) {
                Option::Some(DefV::Object(tnode)) => eval_object_v(
                    tnode,
                    locals,
                    external,
                    Option::None,
                    fuel,
                ),
                Option::Some(_) => Err(ErrV::InternalInvariant { pos: c.pos, text: c.text }),
                Option::None => Err(ErrV::UndefinedReference {
                    name,
                    pos: c.pos,
                    available: Seq::<Seq<char>>::empty(),
                }),
            }
        }
    } else if c.kind == NodeKind::MacroUse {
        if !(c.children.len() >= 3 && c.children[0].kind == NodeKind::Ident && c.children[1].kind
            == NodeKind::Delim && c.children[2].kind == NodeKind::Raw) {
            Err(ErrV::InternalInvariant { pos: c.pos, text: c.text })
        } else {
            let name = c.children[0].text;
            let delim = c.children[1].text;
            let raw = c.children[2].text;
            match pool_get(locals.callables, name) {
                Option::Some(DefV::Function(f)) => {
                    let eff = if delim.len() > 0 {
                        delim
                    } else {
                        seq![',']
                    };
                    let tokens = split_v(raw, eff);
                    if tokens.len() != f.arg_names.len() {
                        Err(ErrV::ArityMismatch {
                            name,
                            expected: f.arg_names.len() as int,
                            got: tokens.len() as int,
                        })
                    } else {
                        let callframe = Seq::new(
                            tokens.len(),
                            |k: int| (f.arg_names[k], trim_v(tokens[k])),
                        );
                        match eval_object_v(f.body, locals, external, Some(callframe), fuel) {
                            Ok(child) => eval_comps_v(
                                child,
                                c.children,
                                3,
                                locals,
                                external,
                                frame,
                                fuel,
                            ),
                            Err(e) => Err(e),
                        }
                    }
                },
                Option::Some(DefV::Macro(m)) => match macro_fill(m, raw, delim) {
                    Err(e) => Err(e),
                    Ok(filled) => match parse_fragment_v(filled) {
                        Err(e) => Err(e),
                        Ok(frag) => match eval_object_v(frag, locals, external, frame, fuel) {
                            Ok(child) => eval_comps_v(
                                child,
                                c.children,
                                3,
                                locals,
                                external,
                                frame,
                                fuel,
                            ),
                            Err(e) => Err(e),
                        },
                    },
                },
                Option::Some(_) => Err(ErrV::InternalInvariant { pos: c.pos, text: c.text }),
                Option::None => Err(ErrV::UndefinedReference {
                    name,
                    pos: c.pos,
                    available: Seq::<Seq<char>>::empty(),
                }),
            }
        }
    } else {
        Err(ErrV::InternalInvariant { pos: c.pos, text: c.text })
    }
}

/// The components of `comps` from index `i` on folded into `obj`, in source
/// order: properties upsert, content blocks join with a newline, and nested
/// objects, template uses and macro uses append children. Each child costs
/// one unit of recursion depth.
pub open spec fn eval_comps_v(
    obj: ObjectV,
    comps: Seq<NodeV>,
    i: int,
    locals: DefMapV,
    external: DefMapV,
    frame: Option<Seq<(Seq<char>, Seq<char>)>>,
    fuel: nat,
) -> Result<ObjectV, ErrV>
    decreases fuel, 0nat, comps.len() - i,
{
    if i < 0 || i >= comps.len() {
        Result::<ObjectV, ErrV>::Ok(obj)
    } else {
        let c = comps[i];
        if c.kind == NodeKind::Property {
            if !(c.children.len() == 2 && c.children[0].kind == NodeKind::Ident) {
                Err(ErrV::InternalInvariant { pos: c.pos, text: c.text })
            } else {
                match interp_string_v(c.children[1], locals, external, frame) {
                    Err(e) => Err(e),
                    Ok(v) => eval_comps_v(
                        with_prop_v(obj, c.children[0].text, v),
                        comps,
                        i + 1,
                        locals,
                        external,
                        frame,
                        fuel,
                    ),
                }
            }
        } else if c.kind == NodeKind::Content {
            if !(c.children.len() == 1) {
                Err(ErrV::InternalInvariant { pos: c.pos, text: c.text })
            } else {
                match interp_string_v(c.children[0], locals, external, frame) {
                    Err(e) => Err(e),
                    Ok(v) => eval_comps_v(
                        with_content_v(obj, v),
                        comps,
                        i + 1,
                        locals,
                        external,
                        frame,
                        fuel,
                    ),
                }
            }
        } else if c.kind == NodeKind::Object || c.kind == NodeKind::TemplateUse || c.kind
            == NodeKind::MacroUse {
            if fuel == 0 {
                Err(ErrV::RecursionLimitExceeded)
            } else {
                match eval_use_v(c, locals, external, frame, (fuel - 1) as nat) {
                    Err(e) => Err(e),
                    Ok(child) => eval_comps_v(
                        with_child_v(obj, child),
                        comps,
                        i + 1,
                        locals,
                        external,
                        frame,
                        fuel,
                    ),
                }
            }
        } else {
            Err(ErrV::InternalInvariant { pos: c.pos, text: c.text })
        }
    }
}

/// The leftover content nodes from index `i` on, each built into an output
/// object, appended to `acc`, without an argument frame.
pub open spec fn contents_v(
    nodes: Seq<NodeV>,
    i: int,
    acc: Seq<ObjectV>,
    locals: DefMapV,
    external: DefMapV,
    fuel: nat,
) -> Result<Seq<ObjectV>, ErrV>
    decreases nodes.len() - i,
{
    if i < 0 || i >= nodes.len() {
        Result::<Seq<ObjectV>, ErrV>::Ok(acc)
    } else {
        match eval_use_v(nodes[i], locals, external, Option::None, fuel) {
            Err(e) => Err(e),
            Ok(o) => contents_v(nodes, i + 1, acc.push(o), locals, external, fuel),
        }
    }
}

/// Writes one property: an existing key keeps its position and takes the new
/// value; a new key is appended.
#[verifier::loop_isolation(false)]
fn upsert_prop(props: &mut Vec<(String, String)>, key: String, value: String)
    ensures
        props_view(*final(props)) == upsert_v(props_view(*old(props)), key@, value@),
{
    let mut i: usize = 0;
    while i < props.len()
        invariant
            i <= props@.len(),
            *props == *old(props),
            forall|j: int| 0 <= j < i ==> props_view(*props)[j].0 != key@,
        decreases props@.len() - i,
    {
        if props[i].0 == key {
            proof {
                lemma_upsert_found(props_view(*props), key@, value@, i as int);
            }
            props[i] = (key, value);
            proof {
                assert(props_view(*props) =~= props_view(*old(props)).update(
                    i as int,
                    (key@, value@),
                ));
            }
            return;
        }
        i = i + 1;
    }
    proof {
        lemma_upsert_absent(props_view(*props), key@, value@);
    }
    props.push((key, value));
    proof {
        assert(props_view(*props) =~= props_view(*old(props)).push((key@, value@)));
    }
}

impl Object {
    /// Wraps a captured object node as a deferred builder.
    pub fn builder(node: Node) -> (r: ObjectBuilder)
        ensures
            r.node@ == node@,
    {
        ObjectBuilder { node }
    }

    /// Builds one object from its node: the namespace and name, then the
    /// components folded in source order.
    pub fn construct(
        node: &Node,
        locals: &DefinitionMap,
        external: &DefinitionMap,
        frame: Option<&Vec<(String, String)>>,
        fuel: u64,
    ) -> (r: Result<Object, MemlError>)
        ensures
            match r {
                Ok(o) => eval_object_v(
                    node@,
                    locals@,
                    external@,
                    frame_view(frame),
                    fuel as nat,
                ) == Ok::<_, ErrV>(o@),
                Err(e) => eval_object_v(node@, locals@, external@, frame_view(frame), fuel as nat)
                    == Err::<ObjectV, _>(e@),
            },
        decreases fuel, 1int, 0int,
    {
        broadcast use crate::node::lemma_node_view_fields;
        broadcast use lemma_object_view_fields;

        if fuel == 0 {
            return Err(MemlError::RecursionLimitExceeded);
        }
        if !(node.kind == NodeKind::Object && node.children.len() >= 2 && node.children[0].kind
            == NodeKind::Ident && node.children[1].kind == NodeKind::Ident) {
            return Err(MemlError::InternalInvariant { pos: node.pos, text: node.text.clone() });
        }
        let mut object = Object {
            namespace: node.children[0].text.clone(),
            name: node.children[1].text.clone(),
            properties: Vec::new(),
            children: Vec::new(),
            content: String::new(),
        };
        proof {
            assert(object@.properties =~= Seq::<(Seq<char>, Seq<char>)>::empty());
            assert(object@.children =~= Seq::<ObjectV>::empty());
            assert(node.children.deep_view() =~= node@.children);
        }
        match object.eval_components(&node.children, 2, locals, external, frame, fuel) {
            Ok(_) => Ok(object),
            Err(e) => Err(e),
        }
    }

    /// Folds the components from index `from` on into this object:
    /// properties upsert (last write wins), content blocks join with a
    /// newline, and nested objects, template uses and macro uses append
    /// children in source order. Each child costs one unit of recursion
    /// depth; a missing template or callable name is fatal, like a missing
    /// constant.
    #[verifier::loop_isolation(false)]
    pub fn eval_components(
        &mut self,
        components: &Vec<Node>,
        from: usize,
        locals: &DefinitionMap,
        external: &DefinitionMap,
        frame: Option<&Vec<(String, String)>>,
        fuel: u64,
    ) -> (r: Result<(), MemlError>)
        ensures
            match r {
                Ok(_) => eval_comps_v(
                    old(self)@,
                    components.deep_view(),
                    from as int,
                    locals@,
                    external@,
                    frame_view(frame),
                    fuel as nat,
                ) == Ok::<_, ErrV>(final(self)@),
                Err(e) => eval_comps_v(
                    old(self)@,
                    components.deep_view(),
                    from as int,
                    locals@,
                    external@,
                    frame_view(frame),
                    fuel as nat,
                ) == Err::<ObjectV, _>(e@),
            },
        decreases fuel, 0int, 0int,
    {
        broadcast use crate::node::lemma_node_view_fields;
        broadcast use lemma_object_view_fields;

        let ghost cv = components.deep_view();
        let ghost fv = frame_view(frame);
        let mut i: usize = from;
        while i < components.len()
            invariant
                from <= i,
                i <= components@.len() || i == from,
                eval_comps_v(old(self)@, cv, from as int, locals@, external@, fv, fuel as nat)
                    == eval_comps_v(self@, cv, i as int, locals@, external@, fv, fuel as nat),
            decreases components@.len() - i,
        {
            let c = &components[i];
            proof {
                assert(cv[i as int] == c@);
            }
            let ghost pre = self@;
            if c.kind == NodeKind::Property {
                if !(c.children.len() == 2 && c.children[0].kind == NodeKind::Ident) {
                    return Err(MemlError::InternalInvariant {
                        pos: c.pos,
                        text: c.text.clone(),
                    });
                }
                match parse_string(&c.children[1], locals, external, frame) {
                    Err(e) => {
                        return Err(e);
                    },
                    Ok(v) => {
                        upsert_prop(&mut self.properties, c.children[0].text.clone(), v);
                        proof {
                            assert(self@.children =~= pre.children);
                            assert(self@ == with_prop_v(pre, c@.children[0].text, v@));
                        }
                    },
                }
            } else if c.kind == NodeKind::Content {
                if !(c.children.len() == 1) {
                    return Err(MemlError::InternalInvariant {
                        pos: c.pos,
                        text: c.text.clone(),
                    });
                }
                match parse_string(&c.children[0], locals, external, frame) {
                    Err(e) => {
                        return Err(e);
                    },
                    Ok(v) => {
                        if self.content.as_str().is_empty() {
                            self.content = v;
                        } else {
                            self.content.append("\n");
                            self.content.append(v.as_str());
                        }
                        proof {
                            reveal_strlit("\n");
                            assert("\n"@ =~= seq!['\n']);
                            assert(self@.children =~= pre.children);
                            assert(self@.content =~= with_content_v(pre, v@).content);
                            assert(self@ == with_content_v(pre, v@));
                        }
                    },
                }
            } else if c.kind == NodeKind::Object || c.kind == NodeKind::TemplateUse || c.kind
                == NodeKind::MacroUse {
                if fuel == 0 {
                    return Err(MemlError::RecursionLimitExceeded);
                }
                match eval_use(c, locals, external, frame, fuel - 1) {
                    Err(e) => {
                        return Err(e);
                    },
                    Ok(child) => {
                        let ghost childv = child@;
                        self.children.push(child);
                        proof {
                            assert(self@.children =~= pre.children.push(childv));
                            assert(self@ == with_child_v(pre, childv));
                        }
                    },
                }
            } else {
                return Err(MemlError::InternalInvariant { pos: c.pos, text: c.text.clone() });
            }
            i = i + 1;
        }
        Ok(())
    }
}

/// Builds the child object one use stands for: a nested object, a `!name`
/// template use, or a `@name(...)` function or macro call with its trailing
/// components.
#[verifier::loop_isolation(false)]
#[verifier::rlimit(60)]
fn eval_use(
    c: &Node,
    locals: &DefinitionMap,
    external: &DefinitionMap,
    frame: Option<&Vec<(String, String)>>,
    fuel: u64,
) -> (r: Result<Object, MemlError>)
    ensures
        match r {
            Ok(o) => eval_use_v(c@, locals@, external@, frame_view(frame), fuel as nat)
                == Ok::<_, ErrV>(o@),
            Err(e) => eval_use_v(c@, locals@, external@, frame_view(frame), fuel as nat)
                == Err::<ObjectV, _>(e@),
        },
    decreases fuel, 2int, 0int,
{
    broadcast use crate::node::lemma_node_view_fields;
    broadcast use lemma_object_view_fields;

    if c.kind == NodeKind::Object {
        Object::construct(c, locals, external, frame, fuel)
    } else if c.kind == NodeKind::TemplateUse {
        if !(c.children.len() == 1 && c.children[0].kind == NodeKind::Ident) {
            return Err(MemlError::InternalInvariant { pos: c.pos, text: c.text.clone() });
        }
        let name = &c.children[0].text;
        match pool_lookup(&locals.objects, name) {
            Some(Definition::Object(b)) => Object::construct(&b.node, locals, external, None, fuel),
            Some(_) => Err(MemlError::InternalInvariant { pos: c.pos, text: c.text.clone() }),
            None => {
                let av: Vec<String> = Vec::new();
                proof {
                    assert(av.deep_view() =~= Seq::<Seq<char>>::empty());
                }
                Err(MemlError::UndefinedReference { name: name.clone(), pos: c.pos, available: av })
            },
        }
    } else if c.kind == NodeKind::MacroUse {
        if !(c.children.len() >= 3 && c.children[0].kind == NodeKind::Ident && c.children[1].kind
            == NodeKind::Delim && c.children[2].kind == NodeKind::Raw) {
            return Err(MemlError::InternalInvariant { pos: c.pos, text: c.text.clone() });
        }
        let name = &c.children[0].text;
        let delim = &c.children[1].text;
        let raw = &c.children[2].text;
        match pool_lookup(&locals.callables, name) {
            Some(Definition::Function(f)) => {
                let eff = if delim.as_str().is_empty() {
                    String::from_str(",")
                } else {
                    delim.clone()
                };
                proof {
                    reveal_strlit(",");
                    assert(","@ =~= seq![',']);
                }
                let tokens = split_str(raw.as_str(), eff.as_str());
                if tokens.len() != f.arg_names.len() {
                    return Err(MemlError::ArityMismatch {
                        name: name.clone(),
                        expected: f.arg_names.len(),
                        got: tokens.len(),
                    });
                }
                let mut callframe: Vec<(String, String)> = Vec::new();
                let mut k: usize = 0;
                while k < tokens.len()
                    invariant
                        k <= tokens@.len(),
                        tokens@.len() == f.arg_names@.len(),
                        callframe@.len() == k as int,
                        forall|j: int|
                            0 <= j < k ==> (#[trigger] callframe@[j]).0@ == f.arg_names@[j]@
                                && callframe@[j].1@ == trim_v(tokens@[j]@),
                    decreases tokens@.len() - k,
                {
                    let key = f.arg_names[k].clone();
                    let val = trim_str(tokens[k].as_str());
                    callframe.push((key, val));
                    k = k + 1;
                }
                proof {
                    let cv = c@;
                    let fv = pool_get(
                        locals@.callables,
                        cv.children[0].text,
                    )->Some_0->Function_0;
                    let effs = if cv.children[1].text.len() > 0 {
                        cv.children[1].text
                    } else {
                        seq![',']
                    };
                    let tokenss = split_v(cv.children[2].text, effs);
                    assert(fv == f@);
                    assert(effs == eff@);
                    assert(tokenss == tokens.deep_view());
                    assert forall|j: int| 0 <= j < tokenss.len() implies tokenss[j]
                        == tokens@[j]@ by {
                        assert(tokens.deep_view()[j] == tokens@[j]@);
                    }
                    assert(props_view(callframe) =~= Seq::new(
                        tokenss.len(),
                        |k: int| (fv.arg_names[k], trim_v(tokenss[k])),
                    ));
                }
                proof {
                    assert(c.children.deep_view() =~= c@.children);
                }
                match Object::construct(&f.body, locals, external, Some(&callframe), fuel) {
                    Err(e) => Err(e),
                    Ok(child) => {
                        let mut child = child;
                        match child.eval_components(&c.children, 3, locals, external, frame, fuel) {
                            Ok(_) => Ok(child),
                            Err(e) => Err(e),
                        }
                    },
                }
            },
            Some(Definition::Macro(m)) => {
                proof {
                    assert(c.children.deep_view() =~= c@.children);
                }
                match m.call(raw.clone(), delim.clone()) {
                Err(e) => Err(e),
                Ok(filled) => match parse_fragment(filled.as_str()) {
                    Err(e) => Err(e),
                    Ok(frag) => match Object::construct(&frag, locals, external, frame, fuel) {
                        Err(e) => Err(e),
                        Ok(child) => {
                            let mut child = child;
                            match child.eval_components(
                                &c.children,
                                3,
                                locals,
                                external,
                                frame,
                                fuel,
                            ) {
                                Ok(_) => Ok(child),
                                Err(e) => Err(e),
                            }
                        },
                    },
                }
                }
            },
            Some(_) => Err(MemlError::InternalInvariant { pos: c.pos, text: c.text.clone() }),

            None => {
                let av: Vec<String> = Vec::new();
                proof {
                    assert(av.deep_view() =~= Seq::<Seq<char>>::empty());
                }
                Err(MemlError::UndefinedReference { name: name.clone(), pos: c.pos, available: av })
            },
        }
    } else {
        Err(MemlError::InternalInvariant { pos: c.pos, text: c.text.clone() })
    }
}

impl ObjectBuilder {
    /// Builds a fresh object from the captured node against the given pools,
    /// without an argument frame.
    pub fn build(&self, locals: &DefinitionMap, external: &DefinitionMap, fuel: u64) -> (r: Result<
        Object,
        MemlError,
    >)
        ensures
            match r {
                Ok(o) => eval_object_v(self.node@, locals@, external@, Option::None, fuel as nat)
                    == Ok::<_, ErrV>(o@),
                Err(e) => eval_object_v(self.node@, locals@, external@, Option::None, fuel as nat)
                    == Err::<ObjectV, _>(e@),
            },
    {
        Object::construct(&self.node, locals, external, None, fuel)
    }
}

/// Builds every leftover content node into an output object, in order,
/// without an argument frame.
#[verifier::loop_isolation(false)]
pub fn get_contents(
    nodes: &Vec<Node>,
    locals: &DefinitionMap,
    external: &DefinitionMap,
    fuel: u64,
) -> (r: Result<Vec<Object>, MemlError>)
    ensures
        match r {
            Ok(objs) => contents_v(
                nodes.deep_view(),
                0,
                Seq::<ObjectV>::empty(),
                locals@,
                external@,
                fuel as nat,
            ) == Ok::<_, ErrV>(objs.deep_view()),
            Err(e) => contents_v(
                nodes.deep_view(),
                0,
                Seq::<ObjectV>::empty(),
                locals@,
                external@,
                fuel as nat,
            ) == Err::<Seq<ObjectV>, _>(e@),
        },
{
    broadcast use crate::node::lemma_node_view_fields;

    let ghost ndv = nodes.deep_view();
    let mut acc: Vec<Object> = Vec::new();
    proof {
        assert(acc.deep_view() =~= Seq::<ObjectV>::empty());
    }
    let mut i: usize = 0;
    while i < nodes.len()
        invariant
            i <= nodes@.len(),
            contents_v(ndv, 0, Seq::<ObjectV>::empty(), locals@, external@, fuel as nat)
                == contents_v(ndv, i as int, acc.deep_view(), locals@, external@, fuel as nat),
        decreases nodes@.len() - i,
    {
        proof {
            assert(ndv[i as int] == nodes@[i as int]@);
        }
        match eval_use(&nodes[i], locals, external, None, fuel) {
            Err(e) => {
                return Err(e);
            },
            Ok(o) => {
                let ghost pre = acc.deep_view();
                acc.push(o);
                proof {
                    assert(acc.deep_view() =~= pre.push(acc@.last()@));
                }
            },
        }
        i = i + 1;
    }
    Ok(acc)
}

} // verus!
