//! Named definitions and the pools that hold them.
//!
//! A definition is a constant, an object template, a function or a macro.
//! Each file owns a Local pool, visible only inside it, and an Exported pool,
//! never visible to its own file but folded into the External pool that a
//! manifest run hands to every managed file. Each pool keeps three
//! sub-namespaces: constants, object templates, and callables (functions and
//! macros, which share one invocation syntax).
//!
//! Pools are association lists in insertion order; a later binding of the
//! same name shadows an earlier one.

use vstd::prelude::*;

use crate::error::ErrV;
use crate::error::MemlError;
use crate::function::Function;
use crate::function::FunctionV;
use crate::macro_fn::macro_construct_v;
use crate::macro_fn::MacroFn;
use crate::macro_fn::MacroV;
use crate::node::Node;
use crate::node::NodeKind;
use crate::node::NodeV;
use crate::object::ObjectBuilder;
use crate::string::interp_string_v;
use crate::string::parse_string;
use crate::text::clone_strings;
use crate::text::sort_names;
use crate::text::sort_names_v;

verus! {

/// Ghost mirror of [`Definition`].
pub enum DefV {
    Constant(Seq<char>),
    Object(NodeV),
    Function(FunctionV),
    Macro(MacroV),
}

/// One named definition.
#[derive(Debug)]
pub enum Definition {
    /// A string constant, already interpolated at its definition point.
    Constant(String),
    /// An object template: a deferred builder over the captured node, built
    /// fresh against the active pools on every use.
    Object(ObjectBuilder),
    /// A function: named parameters over a captured body node.
    Function(Function),
    /// A macro: a textual blueprint with numbered placeholders.
    Macro(MacroFn),
}

impl View for Definition {
    type V = DefV;

    open spec fn view(&self) -> DefV {
        match self {
            Definition::Constant(s) => DefV::Constant(s@),
            Definition::Object(b) => DefV::Object(b.node@),
            Definition::Function(f) => DefV::Function(f@),
            Definition::Macro(m) => DefV::Macro(m@),
        }
    }
}

impl Clone for Definition {
    /// A deep copy; the copy has the same view as the original.
    fn clone(&self) -> (r: Definition)
        ensures
            r@ == self@,
    {
        match self {
            Definition::Constant(s) => Definition::Constant(s.clone()),
            Definition::Object(b) => Definition::Object(b.clone()),
            Definition::Function(f) => Definition::Function(f.clone()),
            Definition::Macro(m) => Definition::Macro(m.clone()),
        }
    }
}

/// One sub-namespace of a pool, as the specification sees it.
pub type PoolV = Seq<(Seq<char>, DefV)>;

/// Ghost mirror of [`DefinitionMap`].
pub struct DefMapV {
    pub constants: PoolV,
    pub objects: PoolV,
    pub callables: PoolV,
}

/// The definitions of one scope, split into the three sub-namespaces.
#[derive(Debug)]
pub struct DefinitionMap {
    /// String constants, referenced as `$name` inside strings.
    pub constants: Vec<(String, Definition)>,
    /// Object templates, used as `!name`.
    pub objects: Vec<(String, Definition)>,
    /// Functions and macros, called as `@name(...)`.
    pub callables: Vec<(String, Definition)>,
}

/// The view of one sub-namespace.
pub open spec fn pool_view(pairs: Vec<(String, Definition)>) -> PoolV {
    Seq::new(pairs@.len(), |i: int| (pairs@[i].0@, pairs@[i].1@))
}

impl View for DefinitionMap {
    type V = DefMapV;

    open spec fn view(&self) -> DefMapV {
        DefMapV {
            constants: pool_view(self.constants),
            objects: pool_view(self.objects),
            callables: pool_view(self.callables),
        }
    }
}

/// The binding for `name`, the latest insertion winning.
pub open spec fn pool_get(pool: PoolV, name: Seq<char>) -> Option<DefV>
    decreases pool.len(),
{
    if pool.len() == 0 {
        Option::<DefV>::None
    } else if pool.last().0 == name {
        Some(pool.last().1)
    } else {
        pool_get(pool.drop_last(), name)
    }
}

/// The names bound in a pool, in insertion order, duplicates kept.
pub open spec fn pool_keys(pool: PoolV) -> Seq<Seq<char>> {
    Seq::new(pool.len(), |i: int| pool[i].0)
}

impl DefinitionMap {
    /// A map with empty namespaces.
    pub fn new() -> (r: DefinitionMap)
        ensures
            r@.constants =~= Seq::<(Seq<char>, DefV)>::empty(),
            r@.objects =~= Seq::<(Seq<char>, DefV)>::empty(),
            r@.callables =~= Seq::<(Seq<char>, DefV)>::empty(),
    {
        DefinitionMap { constants: Vec::new(), objects: Vec::new(), callables: Vec::new() }
    }
}

/// The binding for `name` in one sub-namespace, the latest insertion winning.
pub fn pool_lookup<'a>(pairs: &'a Vec<(String, Definition)>, name: &String) -> (r: Option<
    &'a Definition,
>)
    ensures
        match r {
            Some(d) => pool_get(pool_view(*pairs), name@) == Some(d@),
            None => pool_get(pool_view(*pairs), name@) is None,
        },
{
    let mut i: usize = pairs.len();
    proof {
        assert(pool_view(*pairs).subrange(0, pairs@.len() as int) =~= pool_view(*pairs));
    }
    while i > 0
        invariant
            i <= pairs@.len(),
            pool_get(pool_view(*pairs), name@) == pool_get(
                pool_view(*pairs).subrange(0, i as int),
                name@,
            ),
        decreases i,
    {
        i = i - 1;
        proof {
            let pv = pool_view(*pairs);
            let cur = pv.subrange(0, i + 1 as int);
            assert(cur.last() == pv[i as int]);
            assert(cur.drop_last() =~= pv.subrange(0, i as int));
        }
        if pairs[i].0 == *name {
            return Some(&pairs[i].1);
        }
    }
    proof {
        assert(pool_view(*pairs).subrange(0, 0) =~= Seq::<(Seq<char>, DefV)>::empty());
    }
    None
}

/// The names bound in one sub-namespace, in insertion order.
pub fn pool_names(pairs: &Vec<(String, Definition)>) -> (r: Vec<String>)
    ensures
        r.deep_view() == pool_keys(pool_view(*pairs)),
{
    let mut r: Vec<String> = Vec::new();
    let mut i: usize = 0;
    while i < pairs.len()
        invariant
            i <= pairs@.len(),
            r@.len() == i as int,
            forall|k: int| 0 <= k < i ==> r@[k]@ == pairs@[k].0@,
        decreases pairs@.len() - i,
    {
        r.push(pairs[i].0.clone());
        i = i + 1;
    }
    proof {
        assert(r.deep_view() =~= pool_keys(pool_view(*pairs)));
    }
    r
}

/// One of the three sub-namespaces, by name.
#[derive(Debug, Clone, Copy, PartialEq, Eq, Structural)]
pub enum Namespace {
    Constants,
    Objects,
    Callables,
}

/// The effect of one top-level item on the pools: a binding, or a leftover
/// content node for the object tree builder.
pub enum StepV {
    Bind { ns: Namespace, name: Seq<char>, def: DefV },
    Leftover,
}

/// The chosen sub-namespace of a map.
pub open spec fn space_of(m: DefMapV, ns: Namespace) -> PoolV {
    match ns {
        Namespace::Constants => m.constants,
        Namespace::Objects => m.objects,
        Namespace::Callables => m.callables,
    }
}

/// `m` with one more binding in the chosen sub-namespace.
pub open spec fn bind_ns(m: DefMapV, ns: Namespace, name: Seq<char>, def: DefV) -> DefMapV {
    match ns {
        Namespace::Constants => DefMapV {
            constants: m.constants.push((name, def)),
            objects: m.objects,
            callables: m.callables,
        },
        Namespace::Objects => DefMapV {
            constants: m.constants,
            objects: m.objects.push((name, def)),
            callables: m.callables,
        },
        Namespace::Callables => DefMapV {
            constants: m.constants,
            objects: m.objects,
            callables: m.callables.push((name, def)),
        },
    }
}

/// A map with empty namespaces, as the specification sees it.
pub open spec fn empty_map_v() -> DefMapV {
    DefMapV {
        constants: Seq::<(Seq<char>, DefV)>::empty(),
        objects: Seq::<(Seq<char>, DefV)>::empty(),
        callables: Seq::<(Seq<char>, DefV)>::empty(),
    }
}

/// The texts of a run of identifier nodes.
pub open spec fn idents_of(children: Seq<NodeV>) -> Seq<Seq<char>> {
    Seq::new(children.len(), |i: int| children[i].text)
}

/// The sub-namespace an import kind word selects. Functions and macros share
/// the callables namespace.
pub open spec fn kind_space(t: Seq<char>) -> Option<Namespace> {
    if t == "string"@ {
        Some(Namespace::Constants)
    } else if t == "object"@ {
        Some(Namespace::Objects)
    } else if t == "macro"@ || t == "function"@ {
        Some(Namespace::Callables)
    } else {
        Option::<Namespace>::None
    }
}

/// What one plain definition item binds. A constant is interpolated eagerly
/// against the Local pool built so far plus External; templates, functions
/// and macros capture their nodes for deferred building.
pub open spec fn def_step(item: NodeV, locals: DefMapV, external: DefMapV) -> Result<StepV, ErrV> {
    if item.kind == NodeKind::StringDef {
        if item.children.len() != 2 || item.children[0].kind != NodeKind::Ident {
            Err(ErrV::InternalInvariant { pos: item.pos, text: item.text })
        } else {
            match interp_string_v(item.children[1], locals, external, Option::None) {
                Ok(v) => Ok(StepV::Bind {
                    ns: Namespace::Constants,
                    name: item.children[0].text,
                    def: DefV::Constant(v),
                }),
                Err(e) => Err(e),
            }
        }
    } else if item.kind == NodeKind::ObjectDef {
        if item.children.len() != 2 || item.children[0].kind != NodeKind::Ident
            || item.children[1].kind != NodeKind::Object {
            Err(ErrV::InternalInvariant { pos: item.pos, text: item.text })
        } else {
            Ok(StepV::Bind {
                ns: Namespace::Objects,
                name: item.children[0].text,
                def: DefV::Object(item.children[1]),
            })
        }
    } else if item.kind == NodeKind::FuncDef {
        if item.children.len() != 3 || item.children[0].kind != NodeKind::Ident
            || item.children[1].kind != NodeKind::Params || item.children[2].kind
            != NodeKind::Object {
            Err(ErrV::InternalInvariant { pos: item.pos, text: item.text })
        } else {
            Ok(StepV::Bind {
                ns: Namespace::Callables,
                name: item.children[0].text,
                def: DefV::Function(FunctionV {
                    arg_names: idents_of(item.children[1].children),
                    body: item.children[2],
                }),
            })
        }
    } else if item.kind == NodeKind::MacroDef {
        match macro_construct_v(item) {
            Ok((key, m)) => Ok(StepV::Bind {
                ns: Namespace::Callables,
                name: key,
                def: DefV::Macro(m),
            }),
            Err(e) => Err(e),
        }
    } else {
        Err(ErrV::InternalInvariant { pos: item.pos, text: item.text })
    }
}

/// What one top-level item does during resolution: a definition binds into
/// Local; `export` binds into Local and Exported both; `import` copies one
/// definition from External into Local, or fails naming the sorted entries
/// of the matching category; content nodes are left for the builder.
pub open spec fn step_of(item: NodeV, locals: DefMapV, external: DefMapV) -> Result<
    (StepV, bool),
    ErrV,
> {
    if item.kind == NodeKind::StringDef || item.kind == NodeKind::ObjectDef || item.kind
        == NodeKind::FuncDef || item.kind == NodeKind::MacroDef {
        match def_step(item, locals, external) {
            Ok(step) => Ok((step, false)),
            Err(e) => Err(e),
        }
    } else if item.kind == NodeKind::Export {
        if item.children.len() != 1 {
            Err(ErrV::InternalInvariant { pos: item.pos, text: item.text })
        } else {
            match def_step(item.children[0], locals, external) {
                Ok(step) => Ok((step, true)),
                Err(e) => Err(e),
            }
        }
    } else if item.kind == NodeKind::Import {
        if item.children.len() != 2 || item.children[0].kind != NodeKind::Ident
            || item.children[1].kind != NodeKind::Ident {
            Err(ErrV::InternalInvariant { pos: item.pos, text: item.text })
        } else {
            match kind_space(item.children[0].text) {
                Option::None => Err(ErrV::InternalInvariant {
                    pos: item.children[0].pos,
                    text: item.children[0].text,
                }),
                Option::Some(ns) => match pool_get(space_of(external, ns), item.children[1].text) {
                    Option::Some(d) => Ok((
                        StepV::Bind { ns, name: item.children[1].text, def: d },
                        false,
                    )),
                    Option::None => Err(ErrV::UndefinedReference {
                        name: item.children[1].text,
                        pos: item.pos,
                        available: sort_names_v(pool_keys(space_of(external, ns))),
                    }),
                },
            }
        }
    } else {
        Ok((StepV::Leftover, false))
    }
}

/// The pools and leftovers after one item's step.
pub open spec fn apply_step(
    locals: DefMapV,
    exports: DefMapV,
    remaining: Seq<NodeV>,
    item: NodeV,
    step: StepV,
    exported: bool,
) -> (DefMapV, DefMapV, Seq<NodeV>) {
    match step {
        StepV::Bind { ns, name, def } => (
            bind_ns(locals, ns, name, def),
            if exported {
                bind_ns(exports, ns, name, def)
            } else {
                exports
            },
            remaining,
        ),
        StepV::Leftover => (locals, exports, remaining.push(item)),
    }
}

/// Resolution of the items from index `i` on, threading the pools and the
/// leftover content nodes.
pub open spec fn resolve_from(
    items: Seq<NodeV>,
    i: int,
    locals: DefMapV,
    exports: DefMapV,
    remaining: Seq<NodeV>,
    external: DefMapV,
) -> Result<(DefMapV, DefMapV, Seq<NodeV>), ErrV>
    decreases items.len() - i,
{
    if i < 0 || i >= items.len() {
        Result::<(DefMapV, DefMapV, Seq<NodeV>), ErrV>::Ok((locals, exports, remaining))
    } else {
        match step_of(items[i], locals, external) {
            Err(e) => Err(e),
            Ok((step, exported)) => {
                let next = apply_step(locals, exports, remaining, items[i], step, exported);
                resolve_from(items, i + 1, next.0, next.1, next.2, external)
            },
        }
    }
}

/// What resolving a file's top-level items yields: its Local pool, its
/// Exported pool, and the leftover content nodes, in one forward pass
/// starting from empty pools.
pub open spec fn resolve_v(items: Seq<NodeV>, external: DefMapV) -> Result<
    (DefMapV, DefMapV, Seq<NodeV>),
    ErrV,
> {
    resolve_from(items, 0, empty_map_v(), empty_map_v(), Seq::<NodeV>::empty(), external)
}

/// Whether `k` is one of the four plain definition kinds.
pub open spec fn is_def_kind(k: NodeKind) -> bool {
    k == NodeKind::StringDef || k == NodeKind::ObjectDef || k == NodeKind::FuncDef || k
        == NodeKind::MacroDef
}

/// Whether one top-level item so much as mentions `name` as a defined,
/// exported or imported name. An item that does not cannot bind it.
pub open spec fn item_binds(item: NodeV, name: Seq<char>) -> bool {
    ||| (is_def_kind(item.kind) && item.children.len() >= 1 && item.children[0].text == name)
    ||| (item.kind == NodeKind::Export && item.children.len() == 1 && item.children[0].children.len()
        >= 1 && item.children[0].children[0].text == name)
    ||| (item.kind == NodeKind::Import && item.children.len() == 2 && item.children[1].text == name)
}

/// A successful step binds only a name the item mentions.
proof fn lemma_step_name(item: NodeV, locals: DefMapV, external: DefMapV, name: Seq<char>)
    requires
        step_of(item, locals, external) matches Ok((StepV::Bind { ns, name: nm, def }, exported))
            && nm == name,
    ensures
        item_binds(item, name),
{
}

/// Resolution invents no bindings: a name that no remaining item mentions
/// and that is not yet bound stays unbound.
proof fn lemma_resolve_no_invention(
    items: Seq<NodeV>,
    i: int,
    locals: DefMapV,
    exports: DefMapV,
    remaining: Seq<NodeV>,
    external: DefMapV,
    ns: Namespace,
    name: Seq<char>,
)
    requires
        resolve_from(items, i, locals, exports, remaining, external) is Ok,
        pool_get(space_of(locals, ns), name) is None,
        forall|j: int| i <= j < items.len() ==> !item_binds(#[trigger] items[j], name),
    ensures
        pool_get(
            space_of(resolve_from(items, i, locals, exports, remaining, external)->Ok_0.0, ns),
            name,
        ) is None,
    decreases items.len() - i,
{
    if 0 <= i < items.len() {
        match step_of(items[i], locals, external) {
            Ok((step, exported)) => {
                let next = apply_step(locals, exports, remaining, items[i], step, exported);
                match step {
                    StepV::Bind { ns: ns2, name: nm, def } => {
                        if nm == name {
                            lemma_step_name(items[i], locals, external, name);
                        }
                        assert(nm != name);
                        if ns2 == ns {
                            let pool = space_of(locals, ns);
                            assert(space_of(next.0, ns) == pool.push((nm, def)));
                            assert(pool.push((nm, def)).drop_last() =~= pool);
                            assert(pool_get(space_of(next.0, ns), name) is None);
                        } else {
                            assert(space_of(next.0, ns) == space_of(locals, ns));
                        }
                    },
                    StepV::Leftover => {
                        assert(next.0 == locals);
                    },
                }
                lemma_resolve_no_invention(items, i + 1, next.0, next.1, next.2, external, ns, name);
            },
            Err(_) => {},
        }
    }
}

/// Law: two-tier scoping. A name that a file neither defines nor imports is
/// absent from its Local pool after resolution; since object-template and
/// callable uses consult the Local pool only, a name exported by another
/// file is reachable solely through an explicit `import`, never implicitly.
/// (Constants are the stated exception: `$name` interpolation consults the
/// Local constants first and then the External ones.)
pub proof fn lemma_scoping_needs_import(
    items: Seq<NodeV>,
    external: DefMapV,
    ns: Namespace,
    name: Seq<char>,
)
    requires
        resolve_v(items, external) is Ok,
        forall|j: int| 0 <= j < items.len() ==> !item_binds(#[trigger] items[j], name),
    ensures
        pool_get(space_of(resolve_v(items, external)->Ok_0.0, ns), name) is None,
{
    assert(pool_get(space_of(empty_map_v(), ns), name) is None);
    lemma_resolve_no_invention(
        items,
        0,
        empty_map_v(),
        empty_map_v(),
        Seq::<NodeV>::empty(),
        external,
        ns,
        name,
    );
}

/// Law: a resolved import copies the External binding itself into the Local
/// pool, as a non-exported step: the Exported pool gains nothing from it
/// (see `apply_step`), and the External pool, passed by shared reference
/// everywhere, is never written during resolution.
pub proof fn lemma_import_step(item: NodeV, locals: DefMapV, external: DefMapV)
    requires
        item.kind == NodeKind::Import,
        item.children.len() == 2,
        item.children[0].kind == NodeKind::Ident,
        item.children[1].kind == NodeKind::Ident,
        kind_space(item.children[0].text) is Some,
        pool_get(
            space_of(external, kind_space(item.children[0].text)->Some_0),
            item.children[1].text,
        ) is Some,
    ensures
        step_of(item, locals, external) == Ok::<_, ErrV>(
            (
                StepV::Bind {
                    ns: kind_space(item.children[0].text)->Some_0,
                    name: item.children[1].text,
                    def: pool_get(
                        space_of(external, kind_space(item.children[0].text)->Some_0),
                        item.children[1].text,
                    )->Some_0,
                },
                false,
            ),
        ),
{
}

/// Reads one plain definition item into its namespace, key and definition.
#[verifier::loop_isolation(false)]
fn read_def(item: &Node, locals: &DefinitionMap, external: &DefinitionMap) -> (r: Result<
    (Namespace, String, Definition),
    MemlError,
>)
    ensures
        match r {
            Ok((ns, name, d)) => def_step(item@, locals@, external@) == Ok::<_, ErrV>(
                StepV::Bind { ns, name: name@, def: d@ },
            ),
            Err(e) => def_step(item@, locals@, external@) == Err::<StepV, _>(e@),
        },
{
    broadcast use crate::node::lemma_node_view_fields;

    if item.kind == NodeKind::StringDef {
        if !(item.children.len() == 2 && item.children[0].kind == NodeKind::Ident) {
            return Err(MemlError::InternalInvariant { pos: item.pos, text: item.text.clone() });
        }
        match parse_string(&item.children[1], locals, external, None) {
            Ok(v) => Ok((
                Namespace::Constants,
                item.children[0].text.clone(),
                Definition::Constant(v),
            )),
            Err(e) => Err(e),
        }
    } else if item.kind == NodeKind::ObjectDef {
        if !(item.children.len() == 2 && item.children[0].kind == NodeKind::Ident
            && item.children[1].kind == NodeKind::Object) {
            return Err(MemlError::InternalInvariant { pos: item.pos, text: item.text.clone() });
        }
        Ok((
            Namespace::Objects,
            item.children[0].text.clone(),
            Definition::Object(ObjectBuilder { node: item.children[1].clone() }),
        ))
    } else if item.kind == NodeKind::FuncDef {
        if !(item.children.len() == 3 && item.children[0].kind == NodeKind::Ident
            && item.children[1].kind == NodeKind::Params && item.children[2].kind
            == NodeKind::Object) {
            return Err(MemlError::InternalInvariant { pos: item.pos, text: item.text.clone() });
        }
        let params = &item.children[1];
        let mut names: Vec<String> = Vec::new();
        let mut i: usize = 0;
        while i < params.children.len()
            invariant
                i <= params.children@.len(),
                names@.len() == i as int,
                forall|k: int| 0 <= k < i ==> names@[k]@ == params.children@[k]@.text,
            decreases params.children@.len() - i,
        {
            names.push(params.children[i].text.clone());
            i = i + 1;
        }
        proof {
            assert(names.deep_view() =~= idents_of(params@.children));
        }
        Ok((
            Namespace::Callables,
            item.children[0].text.clone(),
            Definition::Function(Function { arg_names: names, body: item.children[2].clone() }),
        ))
    } else if item.kind == NodeKind::MacroDef {
        match MacroFn::construct(item) {
            Ok((key, m)) => Ok((Namespace::Callables, key, Definition::Macro(m))),
            Err(e) => Err(e),
        }
    } else {
        Err(MemlError::InternalInvariant { pos: item.pos, text: item.text.clone() })
    }
}

/// Applies one top-level item to the pools: definitions bind into Local,
/// exported ones into Exported too, imports copy from External, and content
/// nodes are appended to `remaining` for the object tree builder.
#[verifier::loop_isolation(false)]
fn eval_definition(
    item: &Node,
    external: &DefinitionMap,
    locals: &mut DefinitionMap,
    exports: &mut DefinitionMap,
    remaining: &mut Vec<Node>,
) -> (r: Result<(), MemlError>)
    ensures
        match r {
            Ok(_) => step_of(item@, old(locals)@, external@) is Ok && {
                let (step, exported) = step_of(item@, old(locals)@, external@)->Ok_0;
                (final(locals)@, final(exports)@, final(remaining).deep_view()) == apply_step(
                    old(locals)@,
                    old(exports)@,
                    old(remaining).deep_view(),
                    item@,
                    step,
                    exported,
                )
            },
            Err(e) => step_of(item@, old(locals)@, external@) == Err::<(StepV, bool), _>(e@),
        },
{
    broadcast use crate::node::lemma_node_view_fields;

    if item.kind == NodeKind::StringDef || item.kind == NodeKind::ObjectDef || item.kind
        == NodeKind::FuncDef || item.kind == NodeKind::MacroDef {
        let (ns, name, d) = match read_def(item, locals, external) {
            Ok(t) => t,
            Err(e) => {
                return Err(e);
            },
        };
        bind_into(locals, ns, name, d);
        Ok(())
    } else if item.kind == NodeKind::Export {
        if !(item.children.len() == 1) {
            return Err(MemlError::InternalInvariant { pos: item.pos, text: item.text.clone() });
        }
        let (ns, name, d) = match read_def(&item.children[0], locals, external) {
            Ok(t) => t,
            Err(e) => {
                return Err(e);
            },
        };
        bind_into(exports, ns, name.clone(), d.clone());
        bind_into(locals, ns, name, d);
        Ok(())
    } else if item.kind == NodeKind::Import {
        if !(item.children.len() == 2 && item.children[0].kind == NodeKind::Ident
            && item.children[1].kind == NodeKind::Ident) {
            return Err(MemlError::InternalInvariant { pos: item.pos, text: item.text.clone() });
        }
        let kind_word = &item.children[0].text;
        let ns = if *kind_word == String::from_str("string") {
            Namespace::Constants
        } else if *kind_word == String::from_str("object") {
            Namespace::Objects
        } else if *kind_word == String::from_str("macro") || *kind_word == String::from_str(
            "function",
        ) {
            Namespace::Callables
        } else {
            return Err(MemlError::InternalInvariant {
                pos: item.children[0].pos,
                text: item.children[0].text.clone(),
            });
        };
        let space = match ns {
            Namespace::Constants => &external.constants,
            Namespace::Objects => &external.objects,
            Namespace::Callables => &external.callables,
        };
        let name = &item.children[1].text;
        match pool_lookup(space, name) {
            Some(d) => {
                let copied = d.clone();
                bind_into(locals, ns, name.clone(), copied);
                Ok(())
            },
            None => Err(MemlError::UndefinedReference {
                name: name.clone(),
                pos: item.pos,
                available: sort_names(pool_names(space)),
            }),
        }
    } else {
        remaining.push(item.clone());
        proof {
            assert(final(remaining).deep_view() =~= old(remaining).deep_view().push(item@));
        }
        Ok(())
    }
}

/// Appends one binding to the chosen sub-namespace of a map.
pub(crate) fn bind_into(m: &mut DefinitionMap, ns: Namespace, name: String, d: Definition) -> (r: ())
    ensures
        final(m)@ == bind_ns(old(m)@, ns, name@, d@),
{
    let ghost pre = m@;
    match ns {
        Namespace::Constants => {
            m.constants.push((name, d));
            proof {
                assert(final(m)@.constants =~= pre.constants.push((name@, d@)));
                assert(final(m)@.objects =~= pre.objects);
                assert(final(m)@.callables =~= pre.callables);
            }
        },
        Namespace::Objects => {
            m.objects.push((name, d));
            proof {
                assert(final(m)@.objects =~= pre.objects.push((name@, d@)));
                assert(final(m)@.constants =~= pre.constants);
                assert(final(m)@.callables =~= pre.callables);
            }
        },
        Namespace::Callables => {
            m.callables.push((name, d));
            proof {
                assert(final(m)@.callables =~= pre.callables.push((name@, d@)));
                assert(final(m)@.constants =~= pre.constants);
                assert(final(m)@.objects =~= pre.objects);
            }
        },
    }
}

/// Resolves a file's top-level items in one forward pass: its Local pool,
/// its Exported pool, and the leftover content nodes. The Exported pool is
/// returned upward only; it is never consulted by its own file.
#[verifier::loop_isolation(false)]
pub fn get_definitions(items: &Vec<Node>, external: &DefinitionMap) -> (r: Result<
    (DefinitionMap, DefinitionMap, Vec<Node>),
    MemlError,
>)
    ensures
        match r {
            Ok(t) => resolve_v(items.deep_view(), external@) == Ok::<_, ErrV>(
                (t.0@, t.1@, t.2.deep_view()),
            ),
            Err(e) => resolve_v(items.deep_view(), external@) == Err::<
                (DefMapV, DefMapV, Seq<NodeV>),
                _,
            >(e@),
        },
{
    let mut locals = DefinitionMap::new();
    let mut exports = DefinitionMap::new();
    let mut remaining: Vec<Node> = Vec::new();
    proof {
        assert(locals@ == empty_map_v());
        assert(exports@ == empty_map_v());
        assert(remaining.deep_view() =~= Seq::<NodeV>::empty());
    }
    let mut i: usize = 0;
    while i < items.len()
        invariant
            i <= items@.len(),
            resolve_v(items.deep_view(), external@) == resolve_from(
                items.deep_view(),
                i as int,
                locals@,
                exports@,
                remaining.deep_view(),
                external@,
            ),
        decreases items@.len() - i,
    {
        proof {
            assert(items.deep_view()[i as int] == items@[i as int]@);
        }
        match eval_definition(&items[i], external, &mut locals, &mut exports, &mut remaining) {
            Ok(_) => {},
            Err(e) => {
                return Err(e);
            },
        }
        i = i + 1;
    }
    Ok((locals, exports, remaining))
}

} // verus!
