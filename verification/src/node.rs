//! The labeled parse tree that the grammar produces and the evaluator
//! consumes.
//!
//! Every node carries its kind, the raw text of its leaf content (empty for
//! interior nodes), its children in source order, and the character position
//! where it started, for diagnostics.

use vstd::prelude::*;

verus! {

/// The closed set of parse-node kinds.
#[derive(Debug, Clone, Copy, PartialEq, Eq, Structural)]
pub enum NodeKind {
    /// A name; `text` holds it.
    Ident,
    /// A decimal number; `text` holds its digits.
    Num,
    /// A delimiter literal; `text` holds it.
    Delim,
    /// A raw text block; `text` holds it verbatim.
    Raw,
    /// A literal run inside a string; `text` holds it.
    Qtext,
    /// A `$name` constant reference inside a string; `text` holds the name.
    ConstRef,
    /// A `#name` argument reference inside a string; `text` holds the name.
    ArgRef,
    /// A string literal; children are `Qtext`, `ConstRef` and `ArgRef` parts.
    Str,
    /// A `key: "value"` property; children are `[Ident, Str]`.
    Property,
    /// A content block; children are `[Str]`.
    Content,
    /// A `!name` object-template use; children are `[Ident]`.
    TemplateUse,
    /// A `@name(args)` macro or function use; children are
    /// `[Ident, Delim, Raw]` followed by trailing components.
    MacroUse,
    /// An output object; children are `[Ident, Ident]` (namespace, which may
    /// be empty, and name) followed by components.
    Object,
    /// A `let $name = "..."` constant definition; children are `[Ident, Str]`.
    StringDef,
    /// A `let !name = ...` object-template definition; children are
    /// `[Ident, Object]`.
    ObjectDef,
    /// A `def name(params) body` function definition; children are
    /// `[Ident, Params, Object]`.
    FuncDef,
    /// A `macro name[n]<delim> {...}` macro definition; children are
    /// `[Ident, Num, Delim]` followed by one or more `Raw` blueprint blocks.
    MacroDef,
    /// A function's parameter list; children are `Ident` nodes.
    Params,
    /// An `export` wrapper; children hold the wrapped definition.
    Export,
    /// An `import kind name` request; children are `[Ident, Ident]`.
    Import,
}

/// Ghost mirror of [`Node`].
pub struct NodeV {
    pub kind: NodeKind,
    pub text: Seq<char>,
    pub children: Seq<NodeV>,
    pub pos: int,
}

/// One node of the parse tree.
#[derive(Debug)]
pub struct Node {
    pub kind: NodeKind,
    pub text: String,
    pub children: Vec<Node>,
    pub pos: usize,
}

/// The view of a node: the same tree over ghost types.
pub open spec fn node_view(n: Node) -> NodeV
    decreases n,
    via node_view_decreases
{
    NodeV {
        kind: n.kind,
        text: n.text@,
        children: Seq::new(
            n.children@.len(),
            |i: int|
                if 0 <= i < n.children@.len() {
                    node_view(n.children@[i])
                } else {
                    NodeV {
                        kind: NodeKind::Ident,
                        text: Seq::<char>::empty(),
                        children: Seq::<NodeV>::empty(),
                        pos: 0,
                    }
                },
        ),
        pos: n.pos as int,
    }
}

#[via_fn]
proof fn node_view_decreases(n: Node) {
    broadcast use vstd::std_specs::vec::axiom_vec_decreases_to_view;
    broadcast use vstd::seq::axiom_seq_index_decreases;

    assert forall|i: int| 0 <= i < n.children@.len() implies decreases_to!(n => n.children@[i]) by {
        assert(decreases_to!(n => n.children));
        assert(decreases_to!(n.children => n.children@));
        assert(decreases_to!(n.children@ => n.children@[i]));
    }
}

impl View for Node {
    type V = NodeV;

    open spec fn view(&self) -> NodeV {
        node_view(*self)
    }
}

/// What one level of a node's view holds: its own fields, and each child's
/// view in place.
pub broadcast proof fn lemma_node_view_fields(n: Node)
    ensures
        (#[trigger] node_view(n)).kind == n.kind,
        node_view(n).text == n.text@,
        node_view(n).pos == n.pos as int,
        node_view(n).children.len() == n.children@.len(),
        forall|i: int|
            0 <= i < n.children@.len() ==> node_view(n).children[i] == node_view(n.children@[i]),
{
    assert forall|i: int|
        0 <= i < n.children@.len() implies node_view(n).children[i] == node_view(
        n.children@[i],
    ) by {
        assert(node_view(n).children[i] == node_view(n.children@[i]));
    }
}

impl Node {
    /// A leaf node: no children.
    pub fn leaf(kind: NodeKind, text: String, pos: usize) -> (r: Node)
        ensures
            r@ == (NodeV { kind, text: text@, children: Seq::<NodeV>::empty(), pos: pos as int }),
    {
        let r = Node { kind, text, children: Vec::new(), pos };
        proof {
            assert(r@.children =~= Seq::<NodeV>::empty());
        }
        r
    }

    /// An interior node over the given children; its own text is empty.
    pub fn branch(kind: NodeKind, children: Vec<Node>, pos: usize) -> (r: Node)
        ensures
            r@ == (NodeV {
                kind,
                text: Seq::<char>::empty(),
                children: children.deep_view(),
                pos: pos as int,
            }),
    {
        let r = Node { kind, text: String::new(), children, pos };
        proof {
            assert(r@.children =~= r.children.deep_view());
        }
        r
    }
}

impl Clone for Node {
    /// A deep copy; the copy has the same view as the original.
    fn clone(&self) -> (r: Node)
        ensures
            r@ == self@,
        decreases *self,
    {
        let mut children: Vec<Node> = Vec::new();
        let mut i: usize = 0;
        while i < self.children.len()
            invariant
                i <= self.children.len(),
                children@.len() == i as int,
                forall|j: int| 0 <= j < i ==> children@[j]@ == self.children@[j]@,
            decreases self.children.len() - i,
        {
            children.push(self.children[i].clone());
            i = i + 1;
        }
        let r = Node { kind: self.kind, text: self.text.clone(), children, pos: self.pos };
        proof {
            assert(r@.children =~= self@.children);
        }
        r
    }
}

impl DeepView for Node {
    type V = NodeV;

    open spec fn deep_view(&self) -> NodeV {
        node_view(*self)
    }
}

} // verus!
