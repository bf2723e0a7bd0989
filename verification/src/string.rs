//! String interpolation: the parts of a string literal joined, with `$name`
//! constant references and `#name` argument references resolved.
//!
//! A `$name` is looked up in the Local constants first, then the External
//! ones; a miss is fatal. A `#name` is looked up only in the active call
//! frame; outside a frame it is fatal, with a hint that parentheses access a
//! constant instead carried by the error kind itself.

use vstd::prelude::*;

use crate::defs::pool_get;
use crate::defs::pool_lookup;
use crate::defs::DefMapV;
use crate::defs::DefV;
use crate::defs::Definition;
use crate::defs::DefinitionMap;
use crate::error::res_view;
use crate::error::ErrV;
use crate::error::MemlError;
use crate::node::Node;
use crate::node::NodeKind;
use crate::node::NodeV;
use crate::object::props_view;

verus! {

/// The view of an optional argument frame.
pub open spec fn frame_view(frame: Option<&Vec<(String, String)>>) -> Option<
    Seq<(Seq<char>, Seq<char>)>,
> {
    match frame {
        Option::None => Option::<Seq<(Seq<char>, Seq<char>)>>::None,
        Option::Some(f) => Some(props_view(*f)),
    }
}

/// The value bound to `name` in a frame, the latest binding winning.
pub open spec fn frame_get(f: Seq<(Seq<char>, Seq<char>)>, name: Seq<char>) -> Option<Seq<char>>
    decreases f.len(),
{
    if f.len() == 0 {
        Option::<Seq<char>>::None
    } else if f.last().0 == name {
        Some(f.last().1)
    } else {
        frame_get(f.drop_last(), name)
    }
}

/// The constant bound to `name`: Local constants first, then External.
pub open spec fn const_get(locals: DefMapV, external: DefMapV, name: Seq<char>) -> Option<DefV> {
    match pool_get(locals.constants, name) {
        Option::Some(d) => Some(d),
        Option::None => pool_get(external.constants, name),
    }
}

/// The interpolation of string parts from index `i` on, appended to `acc`:
/// literal runs verbatim, `$name` from the constants, `#name` from the frame.
pub open spec fn interp_parts(
    parts: Seq<NodeV>,
    i: int,
    acc: Seq<char>,
    locals: DefMapV,
    external: DefMapV,
    frame: Option<Seq<(Seq<char>, Seq<char>)>>,
) -> Result<Seq<char>, ErrV>
    decreases parts.len() - i,
{
    if i < 0 || i >= parts.len() {
        Result::<Seq<char>, ErrV>::Ok(acc)
    } else {
        let p = parts[i];
        if p.kind == NodeKind::Qtext {
            interp_parts(parts, i + 1, acc + p.text, locals, external, frame)
        } else if p.kind == NodeKind::ConstRef {
            match const_get(locals, external, p.text) {
                Option::Some(DefV::Constant(v)) => interp_parts(
                    parts,
                    i + 1,
                    acc + v,
                    locals,
                    external,
                    frame,
                ),
                Option::Some(_) => Err(ErrV::InternalInvariant { pos: p.pos, text: p.text }),
                Option::None => Err(ErrV::UndefinedReference {
                    name: p.text,
                    pos: p.pos,
                    available: Seq::<Seq<char>>::empty(),
                }),
            }
        } else if p.kind == NodeKind::ArgRef {
            match frame {
                Option::None => Err(ErrV::UnexpectedArgumentReference { pos: p.pos }),
                Option::Some(f) => match frame_get(f, p.text) {
                    Option::Some(v) => interp_parts(parts, i + 1, acc + v, locals, external, frame),
                    Option::None => Err(ErrV::UndefinedReference {
                        name: p.text,
                        pos: p.pos,
                        available: Seq::<Seq<char>>::empty(),
                    }),
                },
            }
        } else {
            Err(ErrV::InternalInvariant { pos: p.pos, text: p.text })
        }
    }
}

/// The interpolation of a whole string literal node.
pub open spec fn interp_string_v(
    n: NodeV,
    locals: DefMapV,
    external: DefMapV,
    frame: Option<Seq<(Seq<char>, Seq<char>)>>,
) -> Result<Seq<char>, ErrV> {
    if n.kind != NodeKind::Str {
        Err(ErrV::InternalInvariant { pos: n.pos, text: n.text })
    } else {
        interp_parts(n.children, 0, Seq::<char>::empty(), locals, external, frame)
    }
}

/// The value bound to `name` in a frame, the latest binding winning.
pub fn frame_lookup<'a>(f: &'a Vec<(String, String)>, name: &String) -> (r: Option<&'a String>)
    ensures
        match r {
            Some(v) => frame_get(props_view(*f), name@) == Some(v@),
            None => frame_get(props_view(*f), name@) is None,
        },
{
    let mut i: usize = f.len();
    proof {
        assert(props_view(*f).subrange(0, f@.len() as int) =~= props_view(*f));
    }
    while i > 0
        invariant
            i <= f@.len(),
            frame_get(props_view(*f), name@) == frame_get(
                props_view(*f).subrange(0, i as int),
                name@,
            ),
        decreases i,
    {
        i = i - 1;
        proof {
            let fv = props_view(*f);
            let cur = fv.subrange(0, i + 1 as int);
            assert(cur.last() == fv[i as int]);
            assert(cur.drop_last() =~= fv.subrange(0, i as int));
        }
        if f[i].0 == *name {
            return Some(&f[i].1);
        }
    }
    proof {
        assert(props_view(*f).subrange(0, 0) =~= Seq::<(Seq<char>, Seq<char>)>::empty());
    }
    None
}

/// Interpolates one string literal node against the given pools and frame.
#[verifier::loop_isolation(false)]
pub fn parse_string(
    node: &Node,
    locals: &DefinitionMap,
    external: &DefinitionMap,
    frame: Option<&Vec<(String, String)>>,
) -> (r: Result<String, MemlError>)
    ensures
        res_view(r) == interp_string_v(node@, locals@, external@, frame_view(frame)),
{
    broadcast use crate::node::lemma_node_view_fields;

    if !(node.kind == NodeKind::Str) {
        return Err(MemlError::InternalInvariant { pos: node.pos, text: node.text.clone() });
    }
    let ghost fv = frame_view(frame);
    let mut acc = String::new();
    let mut i: usize = 0;
    while i < node.children.len()
        invariant
            i <= node.children@.len(),
            interp_parts(node@.children, 0, Seq::<char>::empty(), locals@, external@, fv)
                == interp_parts(node@.children, i as int, acc@, locals@, external@, fv),
        decreases node.children@.len() - i,
    {
        let p = &node.children[i];
        if p.kind == NodeKind::Qtext {
            acc.append(p.text.as_str());
        } else if p.kind == NodeKind::ConstRef {
            let hit = match pool_lookup(&locals.constants, &p.text) {
                Some(d) => Some(d),
                None => pool_lookup(&external.constants, &p.text),
            };
            match hit {
                Some(Definition::Constant(v)) => {
                    acc.append(v.as_str());
                },
                Some(_) => {
                    return Err(MemlError::InternalInvariant {
                        pos: p.pos,
                        text: p.text.clone(),
                    });
                },
                None => {
                    let av: Vec<String> = Vec::new();
                    proof {
                        assert(av.deep_view() =~= Seq::<Seq<char>>::empty());
                    }
                    return Err(MemlError::UndefinedReference {
                        name: p.text.clone(),
                        pos: p.pos,
                        available: av,
                    });
                },
            }
        } else if p.kind == NodeKind::ArgRef {
            match frame {
                None => {
                    return Err(MemlError::UnexpectedArgumentReference { pos: p.pos });
                },
                Some(f) => match frame_lookup(f, &p.text) {
                    Some(v) => {
                        acc.append(v.as_str());
                    },
                    None => {
                        let av: Vec<String> = Vec::new();
                        proof {
                            assert(av.deep_view() =~= Seq::<Seq<char>>::empty());
                        }
                        return Err(MemlError::UndefinedReference {
                            name: p.text.clone(),
                            pos: p.pos,
                            available: av,
                        });
                    },
                },
            }
        } else {
            return Err(MemlError::InternalInvariant { pos: p.pos, text: p.text.clone() });
        }
        i = i + 1;
    }
    Ok(acc)
}

} // verus!
