//! The MEML grammar: a recursive-descent parser from source text to the
//! labeled node tree of [`crate::node`].
//!
//! The surface syntax, `ws` being blanks, tabs and line breaks:
//!
//! ```text
//! file      := ws (item ws)*
//! item      := "let" ws "$" name ws "=" ws string          constant definition
//!            | "let" ws "!" name ws "=" ws object          template definition
//!            | "def" ws name "(" params ")" ws object      function definition
//!            | "macro" ws name "[" digits "]" ("<" delim ">")? (ws rawblock)+
//!            | "export" ws item                            item must be a definition
//!            | "import" ws kind ws name                    kind: string|object|macro|function
//!            | "!" name                                    template use
//!            | "@" name ("<" delim ">")? "(" rawargs ")" (ws rawblock-components)?
//!            | object
//! object    := name (":" name)? ws "{" (ws component)* ws "}"
//! component := name ws ":" ws string                       property
//!            | object                                      child object
//!            | string                                      content
//!            | "!" name                                    template use
//!            | "@" name ("<" delim ">")? "(" rawargs ")" (ws "{" components "}")?
//! string    := '"' (plain text | "$" name | "#" name)* '"'
//! ```
//!
//! A `delim` runs to the next `>`, `rawargs` to the next `)`, and a
//! `rawblock` from `{` to the matching `}` counting brace depth. The words
//! `let`, `def`, `macro`, `export` and `import` are reserved at the top
//! level. Nesting depth is fuel-bounded; the fuel handed to a whole-input
//! parse exceeds its length, so it never runs out on real input.
//!
//! Every executable function is proved equal to a specification function
//! over the source text's character sequence.

use vstd::prelude::*;

use crate::error::ErrV;
use crate::error::MemlError;
use crate::node::Node;
use crate::node::NodeKind;
use crate::node::NodeV;
use crate::text::is_ws;
use crate::text::is_ws_char;

verus! {

/// The recursive-descent parser over one source text.
#[derive(Debug)]
pub struct MemlParser {
    /// The source text.
    pub src: String,
    /// The character length of `src`, kept at hand.
    pub n: usize,
}

impl MemlParser {
    /// The one well-formedness fact: `n` is the character length.
    pub open spec fn wf(&self) -> bool {
        self.n == self.src@.len()
    }

    /// A parser over the given source text.
    pub fn new(src: String) -> (r: MemlParser)
        ensures
            r.wf(),
            r.src@ == src@,
    {
        let n = src.as_str().unicode_len();
        MemlParser { src, n }
    }

    /// The character at position `i`.
    fn at(&self, i: usize) -> (c: char)
        requires
            self.wf(),
            i < self.n,
        ensures
            c == self.src@[i as int],
    {
        self.src.as_str().get_char(i)
    }

    /// The text from `a` to `b`, exclusive.
    fn sub(&self, a: usize, b: usize) -> (r: String)
        requires
            self.wf(),
            a <= b <= self.n,
        ensures
            r@ == self.src@.subrange(a as int, b as int),
    {
        self.src.as_str().substring_char(a, b).to_owned()
    }
}

/// The first position at or after `pos` that does not hold whitespace.
pub open spec fn skip_ws_v(s: Seq<char>, pos: int) -> int
    decreases s.len() - pos,
{
    if 0 <= pos < s.len() && is_ws_char(s[pos]) {
        skip_ws_v(s, pos + 1)
    } else {
        pos
    }
}

/// Whether `c` may stand in a name: letters, digits and underscores.
pub open spec fn is_ident_char_v(c: char) -> bool {
    ('a' <= c && c <= 'z') || ('A' <= c && c <= 'Z') || ('0' <= c && c <= '9') || c == '_'
}

/// Whether `c` is a decimal digit.
pub open spec fn is_digit_char_v(c: char) -> bool {
    '0' <= c && c <= '9'
}

/// The end of the name run starting at `pos`.
pub open spec fn ident_end_v(s: Seq<char>, pos: int) -> int
    decreases s.len() - pos,
{
    if 0 <= pos < s.len() && is_ident_char_v(s[pos]) {
        ident_end_v(s, pos + 1)
    } else {
        pos
    }
}

/// The end of the digit run starting at `pos`.
pub open spec fn digits_end_v(s: Seq<char>, pos: int) -> int
    decreases s.len() - pos,
{
    if 0 <= pos < s.len() && is_digit_char_v(s[pos]) {
        digits_end_v(s, pos + 1)
    } else {
        pos
    }
}

/// The end of the literal run starting at `pos` inside a string: it stops at
/// a quote, a `$`, a `#`, or the end of input.
pub open spec fn qtext_end_v(s: Seq<char>, pos: int) -> int
    decreases s.len() - pos,
{
    if 0 <= pos < s.len() && s[pos] != '"' && s[pos] != '$' && s[pos] != '#' {
        qtext_end_v(s, pos + 1)
    } else {
        pos
    }
}

/// The first position at or after `pos` holding `stop`, or the end of input.
pub open spec fn scan_to_v(s: Seq<char>, pos: int, stop: char) -> int
    decreases s.len() - pos,
{
    if 0 <= pos < s.len() && s[pos] != stop {
        scan_to_v(s, pos + 1, stop)
    } else {
        pos
    }
}

/// The position of the `}` matching an opening brace whose inside starts at
/// `pos`, counting nested braces, or none before the end of input.
pub open spec fn raw_end_v(s: Seq<char>, pos: int, depth: int) -> Option<int>
    decreases s.len() - pos,
{
    if !(0 <= pos < s.len()) {
        Option::<int>::None
    } else if s[pos] == '}' {
        if depth == 0 {
            Some(pos)
        } else {
            raw_end_v(s, pos + 1, depth - 1)
        }
    } else if s[pos] == '{' {
        raw_end_v(s, pos + 1, depth + 1)
    } else {
        raw_end_v(s, pos + 1, depth)
    }
}

impl MemlParser {
    /// The first position at or after `pos` that does not hold whitespace.
    #[verifier::loop_isolation(false)]
    pub fn skip_ws(&self, pos: usize) -> (r: usize)
        requires
            self.wf(),
            pos <= self.n,
        ensures
            r == skip_ws_v(self.src@, pos as int),
            pos <= r <= self.n,
    {
        let mut i = pos;
        while i < self.n && is_ws(self.at(i))
            invariant
                pos <= i <= self.n,
                skip_ws_v(self.src@, pos as int) == skip_ws_v(self.src@, i as int),
            decreases self.n - i,
        {
            i = i + 1;
        }
        i
    }

    /// Whether `c` may stand in a name.
    fn is_ident_char(c: char) -> (b: bool)
        ensures
            b == is_ident_char_v(c),
    {
        ('a' <= c && c <= 'z') || ('A' <= c && c <= 'Z') || ('0' <= c && c <= '9') || c == '_'
    }

    /// The end of the name run starting at `pos`.
    #[verifier::loop_isolation(false)]
    fn ident_end(&self, pos: usize) -> (r: usize)
        requires
            self.wf(),
            pos <= self.n,
        ensures
            r == ident_end_v(self.src@, pos as int),
            pos <= r <= self.n,
    {
        let mut i = pos;
        while i < self.n && Self::is_ident_char(self.at(i))
            invariant
                pos <= i <= self.n,
                ident_end_v(self.src@, pos as int) == ident_end_v(self.src@, i as int),
            decreases self.n - i,
        {
            i = i + 1;
        }
        i
    }

    /// Whether `c` is a decimal digit.
    fn is_digit_char(c: char) -> (b: bool)
        ensures
            b == is_digit_char_v(c),
    {
        '0' <= c && c <= '9'
    }

    /// Whether `c` continues a literal run inside a string.
    fn is_qtext_char(c: char) -> (b: bool)
        ensures
            b == (c != '"' && c != '$' && c != '#'),
    {
        c != '"' && c != '$' && c != '#'
    }

    /// The end of the digit run starting at `pos`.
    #[verifier::loop_isolation(false)]
    fn digits_end(&self, pos: usize) -> (r: usize)
        requires
            self.wf(),
            pos <= self.n,
        ensures
            r == digits_end_v(self.src@, pos as int),
            pos <= r <= self.n,
    {
        let mut i = pos;
        while i < self.n && Self::is_digit_char(self.at(i))
            invariant
                pos <= i <= self.n,
                digits_end_v(self.src@, pos as int) == digits_end_v(self.src@, i as int),
            decreases self.n - i,
        {
            i = i + 1;
        }
        i
    }

    /// The end of the literal run starting at `pos` inside a string.
    #[verifier::loop_isolation(false)]
    fn qtext_end(&self, pos: usize) -> (r: usize)
        requires
            self.wf(),
            pos <= self.n,
        ensures
            r == qtext_end_v(self.src@, pos as int),
            pos <= r <= self.n,
    {
        let mut i = pos;
        while i < self.n && Self::is_qtext_char(self.at(i))
            invariant
                pos <= i <= self.n,
                qtext_end_v(self.src@, pos as int) == qtext_end_v(self.src@, i as int),
            decreases self.n - i,
        {
            i = i + 1;
        }
        i
    }

    /// The first position at or after `pos` holding `stop`, or the end.
    #[verifier::loop_isolation(false)]
    fn scan_to(&self, pos: usize, stop: char) -> (r: usize)
        requires
            self.wf(),
            pos <= self.n,
        ensures
            r == scan_to_v(self.src@, pos as int, stop),
            pos <= r <= self.n,
    {
        let mut i = pos;
        while i < self.n && self.at(i) != stop
            invariant
                pos <= i <= self.n,
                scan_to_v(self.src@, pos as int, stop) == scan_to_v(self.src@, i as int, stop),
            decreases self.n - i,
        {
            i = i + 1;
        }
        i
    }

    /// The position of the matching `}` for an inside starting at `pos`.
    #[verifier::loop_isolation(false)]
    fn raw_end(&self, pos: usize) -> (r: Option<usize>)
        requires
            self.wf(),
            pos <= self.n,
        ensures
            match r {
                Some(e) => raw_end_v(self.src@, pos as int, 0) == Some(e as int) && pos <= e
                    < self.n,
                None => raw_end_v(self.src@, pos as int, 0) is None,
            },
    {
        let mut i = pos;
        let mut d: usize = 0;
        while i < self.n
            invariant
                pos <= i <= self.n,
                d <= i - pos,
                raw_end_v(self.src@, pos as int, 0) == raw_end_v(
                    self.src@,
                    i as int,
                    d as int,
                ),
            decreases self.n - i,
        {
            let c = self.at(i);
            if c == '}' {
                if d == 0 {
                    return Some(i);
                }
                d = d - 1;
            } else if c == '{' {
                d = d + 1;
            }
            i = i + 1;
        }
        None
    }
}

/// A name parsed at `pos`: its end and its text. An empty run fails.
pub open spec fn parse_ident_v(s: Seq<char>, pos: int) -> Result<(int, Seq<char>), ErrV> {
    let end = ident_end_v(s, pos);
    if end == pos {
        Err(ErrV::ParseFailure { pos })
    } else {
        Ok((end, s.subrange(pos, end)))
    }
}

/// An optional `<delim>` clause at `pos`: the position after it and its raw
/// text, or the position unchanged and empty text when absent.
pub open spec fn parse_delim_opt_v(s: Seq<char>, pos: int) -> Result<(int, Seq<char>), ErrV> {
    if 0 <= pos < s.len() && s[pos] == '<' {
        let e = scan_to_v(s, pos + 1, '>');
        if e >= s.len() {
            Err(ErrV::ParseFailure { pos })
        } else {
            Ok((e + 1, s.subrange(pos + 1, e)))
        }
    } else {
        Ok((pos, Seq::<char>::empty()))
    }
}

/// The parts of a string literal from `pos` (just inside the opening quote)
/// to its closing quote: literal runs, `$name` and `#name` references.
pub open spec fn str_parts_v(s: Seq<char>, pos: int, acc: Seq<NodeV>, fuel: nat) -> Result<
    (int, Seq<NodeV>),
    ErrV,
>
    decreases fuel,
{
    if fuel == 0 {
        Err(ErrV::RecursionLimitExceeded)
    } else if !(0 <= pos < s.len()) {
        Err(ErrV::ParseFailure { pos })
    } else if s[pos] == '"' {
        Ok((pos + 1, acc))
    } else if s[pos] == '$' || s[pos] == '#' {
        match parse_ident_v(s, pos + 1) {
            Err(e) => Err(e),
            Ok((e2, name)) => {
                let kind = if s[pos] == '$' {
                    NodeKind::ConstRef
                } else {
                    NodeKind::ArgRef
                };
                str_parts_v(
                    s,
                    e2,
                    acc.push(
                        NodeV { kind, text: name, children: Seq::<NodeV>::empty(), pos },
                    ),
                    (fuel - 1) as nat,
                )
            },
        }
    } else {
        let e2 = qtext_end_v(s, pos);
        str_parts_v(
            s,
            e2,
            acc.push(
                NodeV {
                    kind: NodeKind::Qtext,
                    text: s.subrange(pos, e2),
                    children: Seq::<NodeV>::empty(),
                    pos,
                },
            ),
            (fuel - 1) as nat,
        )
    }
}

/// A whole string literal at `pos`: the position past its closing quote and
/// its `Str` node.
pub open spec fn parse_string_lit_v(s: Seq<char>, pos: int, fuel: nat) -> Result<
    (int, NodeV),
    ErrV,
> {
    if !(0 <= pos < s.len() && s[pos] == '"') {
        Err(ErrV::ParseFailure { pos })
    } else {
        match str_parts_v(s, pos + 1, Seq::<NodeV>::empty(), fuel) {
            Err(e) => Err(e),
            Ok((e2, parts)) => Ok(
                (
                    e2,
                    NodeV { kind: NodeKind::Str, text: Seq::<char>::empty(), children: parts, pos },
                ),
            ),
        }
    }
}

/// An identifier leaf node.
pub open spec fn ident_leaf_v(name: Seq<char>, pos: int) -> NodeV {
    NodeV { kind: NodeKind::Ident, text: name, children: Seq::<NodeV>::empty(), pos }
}

/// The body of an object whose namespace and name are already parsed:
/// whitespace, `{`, the components, `}`.
pub open spec fn parse_object_tail_v(
    s: Seq<char>,
    pos: int,
    ns: Seq<char>,
    name: Seq<char>,
    start: int,
    fuel: nat,
) -> Result<(int, NodeV), ErrV>
    decreases fuel, 1nat,
{
    if fuel == 0 {
        Err(ErrV::RecursionLimitExceeded)
    } else {
        let w = skip_ws_v(s, pos);
        if !(w < s.len() && s[w] == '{') {
            Err(ErrV::ParseFailure { pos: w })
        } else {
            match comps_from(s, w + 1, Seq::<NodeV>::empty(), (fuel - 1) as nat) {
                Err(e) => Err(e),
                Ok((e2, comps)) => Ok(
                    (
                        e2,
                        NodeV {
                            kind: NodeKind::Object,
                            text: Seq::<char>::empty(),
                            children: seq![
                                ident_leaf_v(ns, start),
                                ident_leaf_v(name, start),
                            ] + comps,
                            pos: start,
                        },
                    ),
                ),
            }
        }
    }
}

/// A whole object at `pos`: a name, an optional `:name` qualifier read as
/// namespace and name, and the braced components.
pub open spec fn parse_object_v(s: Seq<char>, pos: int, fuel: nat) -> Result<(int, NodeV), ErrV>
    decreases fuel, 2nat,
{
    if fuel == 0 {
        Err(ErrV::RecursionLimitExceeded)
    } else {
        match parse_ident_v(s, pos) {
            Err(e) => Err(e),
            Ok((e1, id1)) => {
                if e1 < s.len() && s[e1] == ':' {
                    match parse_ident_v(s, e1 + 1) {
                        Err(e) => Err(e),
                        Ok((e2, id2)) => parse_object_tail_v(
                            s,
                            e2,
                            id1,
                            id2,
                            pos,
                            (fuel - 1) as nat,
                        ),
                    }
                } else {
                    parse_object_tail_v(s, e1, Seq::<char>::empty(), id1, pos, (fuel - 1) as nat)
                }
            },
        }
    }
}

/// A macro or function use at `pos` (at its `@`): the name, an optional
/// `<delim>` override, the raw argument text, and an optional trailing
/// components block that is appended onto the generated fragment.
pub open spec fn parse_macro_use_v(s: Seq<char>, pos: int, fuel: nat) -> Result<(int, NodeV), ErrV>
    decreases fuel, 1nat,
{
    if fuel == 0 {
        Err(ErrV::RecursionLimitExceeded)
    } else if !(0 <= pos < s.len() && s[pos] == '@') {
        Err(ErrV::ParseFailure { pos })
    } else {
        match parse_ident_v(s, pos + 1) {
            Err(e) => Err(e),
            Ok((e1, name)) => match parse_delim_opt_v(s, e1) {
                Err(e) => Err(e),
                Ok((e2, delim)) => {
                    if !(e2 < s.len() && s[e2] == '(') {
                        Err(ErrV::ParseFailure { pos: e2 })
                    } else {
                        let e3 = scan_to_v(s, e2 + 1, ')');
                        if e3 >= s.len() {
                            Err(ErrV::ParseFailure { pos: e2 })
                        } else {
                            let head = seq![
                                ident_leaf_v(name, pos),
                                NodeV {
                                    kind: NodeKind::Delim,
                                    text: delim,
                                    children: Seq::<NodeV>::empty(),
                                    pos: e1,
                                },
                                NodeV {
                                    kind: NodeKind::Raw,
                                    text: s.subrange(e2 + 1, e3),
                                    children: Seq::<NodeV>::empty(),
                                    pos: e2 + 1,
                                },
                            ];
                            let after = e3 + 1;
                            let w = skip_ws_v(s, after);
                            if w < s.len() && s[w] == '{' {
                                match comps_from(s, w + 1, Seq::<NodeV>::empty(), (fuel - 1) as nat) {
                                    Err(e) => Err(e),
                                    Ok((e4, comps)) => Ok(
                                        (
                                            e4,
                                            NodeV {
                                                kind: NodeKind::MacroUse,
                                                text: Seq::<char>::empty(),
                                                children: head + comps,
                                                pos,
                                            },
                                        ),
                                    ),
                                }
                            } else {
                                Ok(
                                    (
                                        after,
                                        NodeV {
                                            kind: NodeKind::MacroUse,
                                            text: Seq::<char>::empty(),
                                            children: head,
                                            pos,
                                        },
                                    ),
                                )
                            }
                        }
                    }
                },
            },
        }
    }
}

/// The components of an object from `pos` (just inside its `{`) to its
/// closing `}`: properties, child objects, content strings, template uses
/// and macro uses, in source order.
pub open spec fn comps_from(s: Seq<char>, pos: int, acc: Seq<NodeV>, fuel: nat) -> Result<
    (int, Seq<NodeV>),
    ErrV,
>
    decreases fuel, 0nat,
{
    if fuel == 0 {
        Err(ErrV::RecursionLimitExceeded)
    } else {
        let w = skip_ws_v(s, pos);
        if !(0 <= w < s.len()) {
            Err(ErrV::ParseFailure { pos: w })
        } else if s[w] == '}' {
            Ok((w + 1, acc))
        } else if s[w] == '"' {
            match parse_string_lit_v(s, w, (fuel - 1) as nat) {
                Err(e) => Err(e),
                Ok((e, node)) => comps_from(
                    s,
                    e,
                    acc.push(
                        NodeV {
                            kind: NodeKind::Content,
                            text: Seq::<char>::empty(),
                            children: seq![node],
                            pos: w,
                        },
                    ),
                    (fuel - 1) as nat,
                ),
            }
        } else if s[w] == '!' {
            match parse_ident_v(s, w + 1) {
                Err(e) => Err(e),
                Ok((e, name)) => comps_from(
                    s,
                    e,
                    acc.push(
                        NodeV {
                            kind: NodeKind::TemplateUse,
                            text: Seq::<char>::empty(),
                            children: seq![ident_leaf_v(name, w + 1)],
                            pos: w,
                        },
                    ),
                    (fuel - 1) as nat,
                ),
            }
        } else if s[w] == '@' {
            match parse_macro_use_v(s, w, (fuel - 1) as nat) {
                Err(e) => Err(e),
                Ok((e, node)) => comps_from(s, e, acc.push(node), (fuel - 1) as nat),
            }
        } else if is_ident_char_v(s[w]) {
            match parse_ident_v(s, w) {
                Err(e) => Err(e),
                Ok((e1, id1)) => {
                    let w1 = skip_ws_v(s, e1);
                    if w1 < s.len() && s[w1] == ':' {
                        let w2 = skip_ws_v(s, w1 + 1);
                        if w2 < s.len() && s[w2] == '"' {
                            match parse_string_lit_v(s, w2, (fuel - 1) as nat) {
                                Err(e) => Err(e),
                                Ok((e2, str_node)) => comps_from(
                                    s,
                                    e2,
                                    acc.push(
                                        NodeV {
                                            kind: NodeKind::Property,
                                            text: Seq::<char>::empty(),
                                            children: seq![ident_leaf_v(id1, w), str_node],
                                            pos: w,
                                        },
                                    ),
                                    (fuel - 1) as nat,
                                ),
                            }
                        } else {
                            match parse_ident_v(s, w2) {
                                Err(e) => Err(e),
                                Ok((e2, id2)) => match parse_object_tail_v(
                                    s,
                                    e2,
                                    id1,
                                    id2,
                                    w,
                                    (fuel - 1) as nat,
                                ) {
                                    Err(e) => Err(e),
                                    Ok((e3, node)) => comps_from(
                                        s,
                                        e3,
                                        acc.push(node),
                                        (fuel - 1) as nat,
                                    ),
                                },
                            }
                        }
                    } else {
                        match parse_object_tail_v(
                            s,
                            e1,
                            Seq::<char>::empty(),
                            id1,
                            w,
                            (fuel - 1) as nat,
                        ) {
                            Err(e) => Err(e),
                            Ok((e2, node)) => comps_from(s, e2, acc.push(node), (fuel - 1) as nat),
                        }
                    }
                },
            }
        } else {
            Err(ErrV::ParseFailure { pos: w })
        }
    }
}

/// A function's parameter list from `pos` (just inside its `(`): names
/// separated by commas, ending past the `)`.
pub open spec fn parse_params_v(s: Seq<char>, pos: int, fuel: nat) -> Result<
    (int, Seq<NodeV>),
    ErrV,
>
    decreases fuel,
{
    if fuel == 0 {
        Err(ErrV::RecursionLimitExceeded)
    } else {
        let w = skip_ws_v(s, pos);
        if w < s.len() && s[w] == ')' {
            Ok((w + 1, Seq::<NodeV>::empty()))
        } else {
            match parse_ident_v(s, w) {
                Err(e) => Err(e),
                Ok((e1, name)) => {
                    let w1 = skip_ws_v(s, e1);
                    if w1 < s.len() && s[w1] == ',' {
                        match parse_params_v(s, w1 + 1, (fuel - 1) as nat) {
                            Err(e) => Err(e),
                            Ok((e2, rest)) => Ok((e2, seq![ident_leaf_v(name, w)] + rest)),
                        }
                    } else if w1 < s.len() && s[w1] == ')' {
                        Ok((w1 + 1, seq![ident_leaf_v(name, w)]))
                    } else {
                        Err(ErrV::ParseFailure { pos: w1 })
                    }
                },
            }
        }
    }
}

/// The run of raw `{...}` blocks from `pos`, each skipped to its matching
/// brace, collected as `Raw` leaves.
pub open spec fn rawblocks_from(s: Seq<char>, pos: int, acc: Seq<NodeV>, fuel: nat) -> Result<
    (int, Seq<NodeV>),
    ErrV,
>
    decreases fuel,
{
    if fuel == 0 {
        Err(ErrV::RecursionLimitExceeded)
    } else {
        let w = skip_ws_v(s, pos);
        if w < s.len() && s[w] == '{' {
            match raw_end_v(s, w + 1, 0) {
                Option::None => Err(ErrV::ParseFailure { pos: w }),
                Option::Some(re) => rawblocks_from(
                    s,
                    re + 1,
                    acc.push(
                        NodeV {
                            kind: NodeKind::Raw,
                            text: s.subrange(w + 1, re),
                            children: Seq::<NodeV>::empty(),
                            pos: w,
                        },
                    ),
                    (fuel - 1) as nat,
                ),
            }
        } else {
            Ok((pos, acc))
        }
    }
}

/// One top-level item at `pos` (at non-whitespace): a definition, an export,
/// an import, or a content node.
pub open spec fn parse_item_v(s: Seq<char>, pos: int, fuel: nat) -> Result<(int, NodeV), ErrV>
    decreases fuel, 3nat,
{
    if fuel == 0 {
        Err(ErrV::RecursionLimitExceeded)
    } else if !(0 <= pos < s.len()) {
        Err(ErrV::ParseFailure { pos })
    } else if s[pos] == '!' {
        match parse_ident_v(s, pos + 1) {
            Err(e) => Err(e),
            Ok((e, name)) => Ok(
                (
                    e,
                    NodeV {
                        kind: NodeKind::TemplateUse,
                        text: Seq::<char>::empty(),
                        children: seq![ident_leaf_v(name, pos + 1)],
                        pos,
                    },
                ),
            ),
        }
    } else if s[pos] == '@' {
        parse_macro_use_v(s, pos, (fuel - 1) as nat)
    } else if is_ident_char_v(s[pos]) {
        match parse_ident_v(s, pos) {
            Err(e) => Err(e),
            Ok((e1, kw)) => {
                if kw == "let"@ {
                    parse_let_v(s, pos, e1, (fuel - 1) as nat)
                } else if kw == "def"@ {
                    parse_func_def_v(s, pos, e1, (fuel - 1) as nat)
                } else if kw == "macro"@ {
                    parse_macro_def_v(s, pos, e1, (fuel - 1) as nat)
                } else if kw == "export"@ {
                    let w = skip_ws_v(s, e1);
                    match parse_item_v(s, w, (fuel - 1) as nat) {
                        Err(e) => Err(e),
                        Ok((e2, inner)) => {
                            if inner.kind == NodeKind::StringDef || inner.kind
                                == NodeKind::ObjectDef || inner.kind == NodeKind::FuncDef
                                || inner.kind == NodeKind::MacroDef {
                                Ok(
                                    (
                                        e2,
                                        NodeV {
                                            kind: NodeKind::Export,
                                            text: Seq::<char>::empty(),
                                            children: seq![inner],
                                            pos,
                                        },
                                    ),
                                )
                            } else {
                                Err(ErrV::ParseFailure { pos: w })
                            }
                        },
                    }
                } else if kw == "import"@ {
                    let w = skip_ws_v(s, e1);
                    match parse_ident_v(s, w) {
                        Err(e) => Err(e),
                        Ok((e2, kind_word)) => {
                            let w2 = skip_ws_v(s, e2);
                            match parse_ident_v(s, w2) {
                                Err(e) => Err(e),
                                Ok((e3, name)) => Ok(
                                    (
                                        e3,
                                        NodeV {
                                            kind: NodeKind::Import,
                                            text: Seq::<char>::empty(),
                                            children: seq![
                                                ident_leaf_v(kind_word, w),
                                                ident_leaf_v(name, w2),
                                            ],
                                            pos,
                                        },
                                    ),
                                ),
                            }
                        },
                    }
                } else {
                    if e1 < s.len() && s[e1] == ':' {
                        match parse_ident_v(s, e1 + 1) {
                            Err(e) => Err(e),
                            Ok((e2, id2)) => parse_object_tail_v(
                                s,
                                e2,
                                kw,
                                id2,
                                pos,
                                (fuel - 1) as nat,
                            ),
                        }
                    } else {
                        parse_object_tail_v(s, e1, Seq::<char>::empty(), kw, pos, (fuel - 1) as nat)
                    }
                }
            },
        }
    } else {
        Err(ErrV::ParseFailure { pos })
    }
}

/// A `let` definition: `let $name = "..."` for a constant, `let !name = obj`
/// for an object template. `pos` is the item's start, `e1` the end of the
/// keyword.
pub open spec fn parse_let_v(s: Seq<char>, pos: int, e1: int, fuel: nat) -> Result<
    (int, NodeV),
    ErrV,
>
    decreases fuel, 4nat,
{
    if fuel == 0 {
        Err(ErrV::RecursionLimitExceeded)
    } else {
        let w = skip_ws_v(s, e1);
        if w < s.len() && (s[w] == '$' || s[w] == '!') {
            match parse_ident_v(s, w + 1) {
                Err(e) => Err(e),
                Ok((e2, name)) => {
                    let w2 = skip_ws_v(s, e2);
                    if !(w2 < s.len() && s[w2] == '=') {
                        Err(ErrV::ParseFailure { pos: w2 })
                    } else {
                        let w3 = skip_ws_v(s, w2 + 1);
                        if s[w] == '$' {
                            match parse_string_lit_v(s, w3, (fuel - 1) as nat) {
                                Err(e) => Err(e),
                                Ok((e3, str_node)) => Ok(
                                    (
                                        e3,
                                        NodeV {
                                            kind: NodeKind::StringDef,
                                            text: Seq::<char>::empty(),
                                            children: seq![ident_leaf_v(name, w + 1), str_node],
                                            pos,
                                        },
                                    ),
                                ),
                            }
                        } else {
                            match parse_object_v(s, w3, (fuel - 1) as nat) {
                                Err(e) => Err(e),
                                Ok((e3, obj)) => Ok(
                                    (
                                        e3,
                                        NodeV {
                                            kind: NodeKind::ObjectDef,
                                            text: Seq::<char>::empty(),
                                            children: seq![ident_leaf_v(name, w + 1), obj],
                                            pos,
                                        },
                                    ),
                                ),
                            }
                        }
                    }
                },
            }
        } else {
            Err(ErrV::ParseFailure { pos: w })
        }
    }
}

/// A function definition: `def name(params) body`. `pos` is the item's
/// start, `e1` the end of the keyword.
pub open spec fn parse_func_def_v(s: Seq<char>, pos: int, e1: int, fuel: nat) -> Result<
    (int, NodeV),
    ErrV,
>
    decreases fuel, 4nat,
{
    if fuel == 0 {
        Err(ErrV::RecursionLimitExceeded)
    } else {
        let w = skip_ws_v(s, e1);
        match parse_ident_v(s, w) {
            Err(e) => Err(e),
            Ok((e2, name)) => {
                if !(e2 < s.len() && s[e2] == '(') {
                    Err(ErrV::ParseFailure { pos: e2 })
                } else {
                    match parse_params_v(s, e2 + 1, (fuel - 1) as nat) {
                        Err(e) => Err(e),
                        Ok((e3, params)) => {
                            let w2 = skip_ws_v(s, e3);
                            match parse_object_v(s, w2, (fuel - 1) as nat) {
                                Err(e) => Err(e),
                                Ok((e4, body)) => Ok(
                                    (
                                        e4,
                                        NodeV {
                                            kind: NodeKind::FuncDef,
                                            text: Seq::<char>::empty(),
                                            children: seq![
                                                ident_leaf_v(name, w),
                                                NodeV {
                                                    kind: NodeKind::Params,
                                                    text: Seq::<char>::empty(),
                                                    children: params,
                                                    pos: e2 + 1,
                                                },
                                                body,
                                            ],
                                            pos,
                                        },
                                    ),
                                ),
                            }
                        },
                    }
                }
            },
        }
    }
}

/// A macro definition: `macro name[arity]<delim> {blueprint}...`. `pos` is
/// the item's start, `e1` the end of the keyword. The arity takes one to six
/// digits; at least one blueprint block must follow.
pub open spec fn parse_macro_def_v(s: Seq<char>, pos: int, e1: int, fuel: nat) -> Result<
    (int, NodeV),
    ErrV,
>
    decreases fuel, 4nat,
{
    if fuel == 0 {
        Err(ErrV::RecursionLimitExceeded)
    } else {
        let w = skip_ws_v(s, e1);
        match parse_ident_v(s, w) {
            Err(e) => Err(e),
            Ok((e2, name)) => {
                if !(e2 < s.len() && s[e2] == '[') {
                    Err(ErrV::ParseFailure { pos: e2 })
                } else {
                    let de = digits_end_v(s, e2 + 1);
                    if de == e2 + 1 || de - (e2 + 1) > 6 || !(de < s.len() && s[de] == ']') {
                        Err(ErrV::ParseFailure { pos: e2 + 1 })
                    } else {
                        match parse_delim_opt_v(s, de + 1) {
                            Err(e) => Err(e),
                            Ok((e3, delim)) => match rawblocks_from(
                                s,
                                e3,
                                Seq::<NodeV>::empty(),
                                (fuel - 1) as nat,
                            ) {
                                Err(e) => Err(e),
                                Ok((e4, blocks)) => {
                                    if blocks.len() == 0 {
                                        Err(ErrV::ParseFailure { pos: e3 })
                                    } else {
                                        Ok(
                                            (
                                                e4,
                                                NodeV {
                                                    kind: NodeKind::MacroDef,
                                                    text: Seq::<char>::empty(),
                                                    children: seq![
                                                        ident_leaf_v(name, w),
                                                        NodeV {
                                                            kind: NodeKind::Num,
                                                            text: s.subrange(e2 + 1, de),
                                                            children: Seq::<NodeV>::empty(),
                                                            pos: e2 + 1,
                                                        },
                                                        NodeV {
                                                            kind: NodeKind::Delim,
                                                            text: delim,
                                                            children: Seq::<NodeV>::empty(),
                                                            pos: de + 1,
                                                        },
                                                    ] + blocks,
                                                    pos,
                                                },
                                            ),
                                        )
                                    }
                                },
                            },
                        }
                    }
                }
            },
        }
    }
}

/// The top-level items from `pos` to the end of input.
pub open spec fn items_from(s: Seq<char>, pos: int, acc: Seq<NodeV>, fuel: nat) -> Result<
    Seq<NodeV>,
    ErrV,
>
    decreases fuel, 4nat,
{
    if fuel == 0 {
        Err(ErrV::RecursionLimitExceeded)
    } else {
        let w = skip_ws_v(s, pos);
        if w >= s.len() {
            Ok(acc)
        } else {
            match parse_item_v(s, w, (fuel - 1) as nat) {
                Err(e) => Err(e),
                Ok((e, node)) => items_from(s, e, acc.push(node), (fuel - 1) as nat),
            }
        }
    }
}

/// The fuel a whole-input parse starts with: more than one unit per
/// character, so real input never exhausts it.
pub open spec fn fuel_for(s: Seq<char>) -> nat {
    s.len() + 2
}

/// What parsing a whole source text yields: its top-level items.
pub open spec fn parse_raw_v(s: Seq<char>) -> Result<Seq<NodeV>, ErrV> {
    items_from(s, 0, Seq::<NodeV>::empty(), fuel_for(s))
}

/// What parsing a generated object fragment yields: exactly one object with
/// nothing but whitespace around it.
pub open spec fn parse_fragment_v(s: Seq<char>) -> Result<NodeV, ErrV> {
    let w = skip_ws_v(s, 0);
    match parse_object_v(s, w, fuel_for(s)) {
        Err(e) => Err(e),
        Ok((e, node)) => {
            let w2 = skip_ws_v(s, e);
            if w2 >= s.len() {
                Ok(node)
            } else {
                Err(ErrV::ParseFailure { pos: w2 })
            }
        },
    }
}

impl MemlParser {
    /// A name parsed at `pos`: its end and its text.
    fn parse_ident(&self, pos: usize) -> (r: Result<(usize, String), MemlError>)
        requires
            self.wf(),
            pos <= self.n,
        ensures
            match r {
                Ok((e, t)) => parse_ident_v(self.src@, pos as int) == Ok::<_, ErrV>((
                    e as int,
                    t@,
                )) && pos <= e <= self.n,
                Err(er) => parse_ident_v(self.src@, pos as int) == Err::<(int, Seq<char>), _>(er@),
            },
    {
        let end = self.ident_end(pos);
        if end == pos {
            Err(MemlError::ParseFailure { pos })
        } else {
            Ok((end, self.sub(pos, end)))
        }
    }

    /// An optional `<delim>` clause at `pos`.
    fn parse_delim_opt(&self, pos: usize) -> (r: Result<(usize, String), MemlError>)
        requires
            self.wf(),
            pos <= self.n,
        ensures
            match r {
                Ok((e, t)) => parse_delim_opt_v(self.src@, pos as int) == Ok::<_, ErrV>((
                    e as int,
                    t@,
                )) && pos <= e <= self.n,
                Err(er) => parse_delim_opt_v(self.src@, pos as int) == Err::<
                    (int, Seq<char>),
                    _,
                >(er@),
            },
    {
        if pos < self.n && self.at(pos) == '<' {
            let e = self.scan_to(pos + 1, '>');
            if e >= self.n {
                Err(MemlError::ParseFailure { pos })
            } else {
                Ok((e + 1, self.sub(pos + 1, e)))
            }
        } else {
            let t = String::new();
            proof {
                assert(t@ =~= Seq::<char>::empty());
            }
            Ok((pos, t))
        }
    }

    /// The parts of a string literal, appended to `acc`.
    fn str_parts(&self, pos: usize, acc: Vec<Node>, fuel: u128) -> (r: Result<
        (usize, Vec<Node>),
        MemlError,
    >)
        requires
            self.wf(),
            pos <= self.n,
        ensures
            match r {
                Ok((e, parts)) => str_parts_v(self.src@, pos as int, acc.deep_view(), fuel as nat)
                    == Ok::<_, ErrV>((e as int, parts.deep_view())) && e <= self.n,
                Err(er) => str_parts_v(self.src@, pos as int, acc.deep_view(), fuel as nat)
                    == Err::<(int, Seq<NodeV>), _>(er@),
            },
        decreases fuel,
    {
        if fuel == 0 {
            return Err(MemlError::RecursionLimitExceeded);
        }
        if !(pos < self.n) {
            return Err(MemlError::ParseFailure { pos });
        }
        let c = self.at(pos);
        if c == '"' {
            Ok((pos + 1, acc))
        } else if c == '$' || c == '#' {
            match self.parse_ident(pos + 1) {
                Err(e) => Err(e),
                Ok((e2, name)) => {
                    let kind = if c == '$' {
                        NodeKind::ConstRef
                    } else {
                        NodeKind::ArgRef
                    };
                    let mut acc = acc;
                    let ghost pre = acc.deep_view();
                    acc.push(Node::leaf(kind, name, pos));
                    proof {
                        assert(acc.deep_view() =~= pre.push(acc@.last()@));
                    }
                    self.str_parts(e2, acc, fuel - 1)
                },
            }
        } else {
            let e2 = self.qtext_end(pos);
            let mut acc = acc;
            let ghost pre = acc.deep_view();
            acc.push(Node::leaf(NodeKind::Qtext, self.sub(pos, e2), pos));
            proof {
                assert(acc.deep_view() =~= pre.push(acc@.last()@));
            }
            self.str_parts(e2, acc, fuel - 1)
        }
    }

    /// A whole string literal at `pos`.
    fn parse_string_lit(&self, pos: usize, fuel: u128) -> (r: Result<(usize, Node), MemlError>)
        requires
            self.wf(),
            pos <= self.n,
        ensures
            match r {
                Ok((e, node)) => parse_string_lit_v(self.src@, pos as int, fuel as nat)
                    == Ok::<_, ErrV>((e as int, node@)) && e <= self.n,
                Err(er) => parse_string_lit_v(self.src@, pos as int, fuel as nat) == Err::<
                    (int, NodeV),
                    _,
                >(er@),
            },
    {
        if !(pos < self.n && self.at(pos) == '"') {
            return Err(MemlError::ParseFailure { pos });
        }
        let acc0: Vec<Node> = Vec::new();
        proof {
            assert(acc0.deep_view() =~= Seq::<NodeV>::empty());
        }
        match self.str_parts(pos + 1, acc0, fuel) {
            Err(e) => Err(e),
            Ok((e2, parts)) => {
                let node = Node::branch(NodeKind::Str, parts, pos);
                Ok((e2, node))
            },
        }
    }

    /// A function's parameter list from `pos` (just inside its `(`).
    fn parse_params(&self, pos: usize, fuel: u128) -> (r: Result<(usize, Vec<Node>), MemlError>)
        requires
            self.wf(),
            pos <= self.n,
        ensures
            match r {
                Ok((e, params)) => parse_params_v(self.src@, pos as int, fuel as nat)
                    == Ok::<_, ErrV>((e as int, params.deep_view())) && e <= self.n,
                Err(er) => parse_params_v(self.src@, pos as int, fuel as nat) == Err::<
                    (int, Seq<NodeV>),
                    _,
                >(er@),
            },
        decreases fuel,
    {
        if fuel == 0 {
            return Err(MemlError::RecursionLimitExceeded);
        }
        let w = self.skip_ws(pos);
        if w < self.n && self.at(w) == ')' {
            let params: Vec<Node> = Vec::new();
            proof {
                assert(params.deep_view() =~= Seq::<NodeV>::empty());
            }
            return Ok((w + 1, params));
        }
        match self.parse_ident(w) {
            Err(e) => Err(e),
            Ok((e1, name)) => {
                let w1 = self.skip_ws(e1);
                if w1 < self.n && self.at(w1) == ',' {
                    match self.parse_params(w1 + 1, fuel - 1) {
                        Err(e) => Err(e),
                        Ok((e2, rest)) => {
                            let ghost restv = rest.deep_view();
                            let mut params: Vec<Node> = Vec::new();
                            params.push(Node::leaf(NodeKind::Ident, name, w));
                            let mut rest = rest;
                            params.append(&mut rest);
                            proof {
                                assert(params.deep_view() =~= seq![
                                    ident_leaf_v(params@[0]@.text, w as int),
                                ] + restv);
                            }
                            Ok((e2, params))
                        },
                    }
                } else if w1 < self.n && self.at(w1) == ')' {
                    let mut params: Vec<Node> = Vec::new();
                    params.push(Node::leaf(NodeKind::Ident, name, w));
                    proof {
                        assert(params.deep_view() =~= seq![
                            ident_leaf_v(params@[0]@.text, w as int),
                        ]);
                    }
                    Ok((w1 + 1, params))
                } else {
                    Err(MemlError::ParseFailure { pos: w1 })
                }
            },
        }
    }

    /// The run of raw `{...}` blocks from `pos`, appended to `acc`.
    fn rawblocks(&self, pos: usize, acc: Vec<Node>, fuel: u128) -> (r: Result<
        (usize, Vec<Node>),
        MemlError,
    >)
        requires
            self.wf(),
            pos <= self.n,
        ensures
            match r {
                Ok((e, blocks)) => rawblocks_from(self.src@, pos as int, acc.deep_view(), fuel as nat)
                    == Ok::<_, ErrV>((e as int, blocks.deep_view())) && e <= self.n,
                Err(er) => rawblocks_from(self.src@, pos as int, acc.deep_view(), fuel as nat)
                    == Err::<(int, Seq<NodeV>), _>(er@),
            },
        decreases fuel,
    {
        if fuel == 0 {
            return Err(MemlError::RecursionLimitExceeded);
        }
        let w = self.skip_ws(pos);
        if w < self.n && self.at(w) == '{' {
            match self.raw_end(w + 1) {
                None => Err(MemlError::ParseFailure { pos: w }),
                Some(re) => {
                    let mut acc = acc;
                    let ghost pre = acc.deep_view();
                    acc.push(Node::leaf(NodeKind::Raw, self.sub(w + 1, re), w));
                    proof {
                        assert(acc.deep_view() =~= pre.push(acc@.last()@));
                    }
                    self.rawblocks(re + 1, acc, fuel - 1)
                },
            }
        } else {
            Ok((pos, acc))
        }
    }
}

impl MemlParser {
    /// The body of an object whose namespace and name are already parsed.
    fn parse_object_tail(
        &self,
        pos: usize,
        ns: String,
        name: String,
        start: usize,
        fuel: u128,
    ) -> (r: Result<(usize, Node), MemlError>)
        requires
            self.wf(),
            pos <= self.n,
        ensures
            match r {
                Ok((e, node)) => parse_object_tail_v(
                    self.src@,
                    pos as int,
                    ns@,
                    name@,
                    start as int,
                    fuel as nat,
                ) == Ok::<_, ErrV>((e as int, node@)) && e <= self.n,
                Err(er) => parse_object_tail_v(
                    self.src@,
                    pos as int,
                    ns@,
                    name@,
                    start as int,
                    fuel as nat,
                ) == Err::<(int, NodeV), _>(er@),
            },
        decreases fuel, 1int,
    {
        if fuel == 0 {
            return Err(MemlError::RecursionLimitExceeded);
        }
        let w = self.skip_ws(pos);
        if !(w < self.n && self.at(w) == '{') {
            return Err(MemlError::ParseFailure { pos: w });
        }
        let acc0: Vec<Node> = Vec::new();
        proof {
            assert(acc0.deep_view() =~= Seq::<NodeV>::empty());
        }
        match self.comps(w + 1, acc0, fuel - 1) {
            Err(e) => Err(e),
            Ok((e2, comps)) => {
                let ghost compsv = comps.deep_view();
                let mut children: Vec<Node> = Vec::new();
                children.push(Node::leaf(NodeKind::Ident, ns, start));
                children.push(Node::leaf(NodeKind::Ident, name, start));
                let mut comps = comps;
                children.append(&mut comps);
                let ghost nsv = children@[0]@.text;
                let ghost namev = children@[1]@.text;
                let node = Node::branch(NodeKind::Object, children, start);
                proof {
                    assert(node@.children =~= seq![
                        ident_leaf_v(nsv, start as int),
                        ident_leaf_v(namev, start as int),
                    ] + compsv);
                }
                Ok((e2, node))
            },
        }
    }

    /// A whole object at `pos`.
    fn parse_object(&self, pos: usize, fuel: u128) -> (r: Result<(usize, Node), MemlError>)
        requires
            self.wf(),
            pos <= self.n,
        ensures
            match r {
                Ok((e, node)) => parse_object_v(self.src@, pos as int, fuel as nat)
                    == Ok::<_, ErrV>((e as int, node@)) && e <= self.n,
                Err(er) => parse_object_v(self.src@, pos as int, fuel as nat) == Err::<
                    (int, NodeV),
                    _,
                >(er@),
            },
        decreases fuel, 2int,
    {
        if fuel == 0 {
            return Err(MemlError::RecursionLimitExceeded);
        }
        match self.parse_ident(pos) {
            Err(e) => Err(e),
            Ok((e1, id1)) => {
                if e1 < self.n && self.at(e1) == ':' {
                    match self.parse_ident(e1 + 1) {
                        Err(e) => Err(e),
                        Ok((e2, id2)) => self.parse_object_tail(e2, id1, id2, pos, fuel - 1),
                    }
                } else {
                    let ns = String::new();
                    proof {
                        assert(ns@ =~= Seq::<char>::empty());
                    }
                    self.parse_object_tail(e1, ns, id1, pos, fuel - 1)
                }
            },
        }
    }

    /// A macro or function use at `pos` (at its `@`).
    fn parse_macro_use(&self, pos: usize, fuel: u128) -> (r: Result<(usize, Node), MemlError>)
        requires
            self.wf(),
            pos <= self.n,
        ensures
            match r {
                Ok((e, node)) => parse_macro_use_v(self.src@, pos as int, fuel as nat)
                    == Ok::<_, ErrV>((e as int, node@)) && e <= self.n,
                Err(er) => parse_macro_use_v(self.src@, pos as int, fuel as nat) == Err::<
                    (int, NodeV),
                    _,
                >(er@),
            },
        decreases fuel, 1int,
    {
        if fuel == 0 {
            return Err(MemlError::RecursionLimitExceeded);
        }
        if !(pos < self.n && self.at(pos) == '@') {
            return Err(MemlError::ParseFailure { pos });
        }
        match self.parse_ident(pos + 1) {
            Err(e) => Err(e),
            Ok((e1, name)) => match self.parse_delim_opt(e1) {
                Err(e) => Err(e),
                Ok((e2, delim)) => {
                    if !(e2 < self.n && self.at(e2) == '(') {
                        return Err(MemlError::ParseFailure { pos: e2 });
                    }
                    let e3 = self.scan_to(e2 + 1, ')');
                    if e3 >= self.n {
                        return Err(MemlError::ParseFailure { pos: e2 });
                    }
                    let args = self.sub(e2 + 1, e3);
                    let mut head: Vec<Node> = Vec::new();
                    head.push(Node::leaf(NodeKind::Ident, name, pos));
                    head.push(Node::leaf(NodeKind::Delim, delim, e1));
                    head.push(Node::leaf(NodeKind::Raw, args, e2 + 1));
                    let ghost headv = seq![
                        ident_leaf_v(head@[0]@.text, pos as int),
                        NodeV {
                            kind: NodeKind::Delim,
                            text: head@[1]@.text,
                            children: Seq::<NodeV>::empty(),
                            pos: e1 as int,
                        },
                        NodeV {
                            kind: NodeKind::Raw,
                            text: head@[2]@.text,
                            children: Seq::<NodeV>::empty(),
                            pos: e2 + 1 as int,
                        },
                    ];
                    proof {
                        assert(head.deep_view() =~= headv);
                    }
                    let after = e3 + 1;
                    let w = self.skip_ws(after);
                    if w < self.n && self.at(w) == '{' {
                        let acc0: Vec<Node> = Vec::new();
                        proof {
                            assert(acc0.deep_view() =~= Seq::<NodeV>::empty());
                        }
                        match self.comps(w + 1, acc0, fuel - 1) {
                            Err(e) => Err(e),
                            Ok((e4, comps)) => {
                                let ghost compsv = comps.deep_view();
                                let mut children = head;
                                let mut comps = comps;
                                children.append(&mut comps);
                                let node = Node::branch(NodeKind::MacroUse, children, pos);
                                proof {
                                    assert(node@.children =~= headv + compsv);
                                }
                                Ok((e4, node))
                            },
                        }
                    } else {
                        let node = Node::branch(NodeKind::MacroUse, head, pos);
                        proof {
                            assert(node@.children =~= headv);
                        }
                        Ok((after, node))
                    }
                },
            },
        }
    }

    /// The components of an object from `pos` (just inside its `{`),
    /// appended to `acc`.
    fn comps(&self, pos: usize, acc: Vec<Node>, fuel: u128) -> (r: Result<
        (usize, Vec<Node>),
        MemlError,
    >)
        requires
            self.wf(),
            pos <= self.n,
        ensures
            match r {
                Ok((e, comps)) => comps_from(self.src@, pos as int, acc.deep_view(), fuel as nat)
                    == Ok::<_, ErrV>((e as int, comps.deep_view())) && e <= self.n,
                Err(er) => comps_from(self.src@, pos as int, acc.deep_view(), fuel as nat)
                    == Err::<(int, Seq<NodeV>), _>(er@),
            },
        decreases fuel, 0int,
    {
        if fuel == 0 {
            return Err(MemlError::RecursionLimitExceeded);
        }
        let w = self.skip_ws(pos);
        if !(w < self.n) {
            return Err(MemlError::ParseFailure { pos: w });
        }
        let c = self.at(w);
        if c == '}' {
            Ok((w + 1, acc))
        } else if c == '"' {
            match self.parse_string_lit(w, fuel - 1) {
                Err(e) => Err(e),
                Ok((e, str_node)) => {
                    let mut ch: Vec<Node> = Vec::new();
                    let ghost strv = str_node@;
                    ch.push(str_node);
                    let node = Node::branch(NodeKind::Content, ch, w);
                    let mut acc = acc;
                    let ghost pre = acc.deep_view();
                    proof {
                        assert(node@.children =~= seq![strv]);
                    }
                    acc.push(node);
                    proof {
                        assert(acc.deep_view() =~= pre.push(acc@.last()@));
                    }
                    self.comps(e, acc, fuel - 1)
                },
            }
        } else if c == '!' {
            match self.parse_ident(w + 1) {
                Err(e) => Err(e),
                Ok((e, name)) => {
                    let mut ch: Vec<Node> = Vec::new();
                    ch.push(Node::leaf(NodeKind::Ident, name, w + 1));
                    let ghost namev = ch@[0]@.text;
                    let node = Node::branch(NodeKind::TemplateUse, ch, w);
                    let mut acc = acc;
                    let ghost pre = acc.deep_view();
                    proof {
                        assert(node@.children =~= seq![ident_leaf_v(namev, w + 1 as int)]);
                    }
                    acc.push(node);
                    proof {
                        assert(acc.deep_view() =~= pre.push(acc@.last()@));
                    }
                    self.comps(e, acc, fuel - 1)
                },
            }
        } else if c == '@' {
            match self.parse_macro_use(w, fuel - 1) {
                Err(e) => Err(e),
                Ok((e, node)) => {
                    let mut acc = acc;
                    let ghost pre = acc.deep_view();
                    acc.push(node);
                    proof {
                        assert(acc.deep_view() =~= pre.push(acc@.last()@));
                    }
                    self.comps(e, acc, fuel - 1)
                },
            }
        } else if Self::is_ident_char(c) {
            match self.parse_ident(w) {
                Err(e) => Err(e),
                Ok((e1, id1)) => {
                    let w1 = self.skip_ws(e1);
                    if w1 < self.n && self.at(w1) == ':' {
                        let w2 = self.skip_ws(w1 + 1);
                        if w2 < self.n && self.at(w2) == '"' {
                            match self.parse_string_lit(w2, fuel - 1) {
                                Err(e) => Err(e),
                                Ok((e2, str_node)) => {
                                    let ghost strv = str_node@;
                                    let mut ch: Vec<Node> = Vec::new();
                                    ch.push(Node::leaf(NodeKind::Ident, id1, w));
                                    let ghost keyv = ch@[0]@.text;
                                    ch.push(str_node);
                                    let node = Node::branch(NodeKind::Property, ch, w);
                                    let mut acc = acc;
                                    let ghost pre = acc.deep_view();
                                    proof {
                                        assert(node@.children =~= seq![
                                            ident_leaf_v(keyv, w as int),
                                            strv,
                                        ]);
                                    }
                                    acc.push(node);
                                    proof {
                                        assert(acc.deep_view() =~= pre.push(acc@.last()@));
                                    }
                                    self.comps(e2, acc, fuel - 1)
                                },
                            }
                        } else {
                            match self.parse_ident(w2) {
                                Err(e) => Err(e),
                                Ok((e2, id2)) => match self.parse_object_tail(
                                    e2,
                                    id1,
                                    id2,
                                    w,
                                    fuel - 1,
                                ) {
                                    Err(e) => Err(e),
                                    Ok((e3, node)) => {
                                        let mut acc = acc;
                                        let ghost pre = acc.deep_view();
                                        acc.push(node);
                                        proof {
                                            assert(acc.deep_view() =~= pre.push(acc@.last()@));
                                        }
                                        self.comps(e3, acc, fuel - 1)
                                    },
                                },
                            }
                        }
                    } else {
                        let ns = String::new();
                        proof {
                            assert(ns@ =~= Seq::<char>::empty());
                        }
                        match self.parse_object_tail(e1, ns, id1, w, fuel - 1) {
                            Err(e) => Err(e),
                            Ok((e2, node)) => {
                                let mut acc = acc;
                                let ghost pre = acc.deep_view();
                                acc.push(node);
                                proof {
                                    assert(acc.deep_view() =~= pre.push(acc@.last()@));
                                }
                                self.comps(e2, acc, fuel - 1)
                            },
                        }
                    }
                },
            }
        } else {
            Err(MemlError::ParseFailure { pos: w })
        }
    }
}

impl MemlParser {
    /// A `let` definition at `pos`, the keyword ending at `e1`.
    fn parse_let(&self, pos: usize, e1: usize, fuel: u128) -> (r: Result<(usize, Node), MemlError>)
        requires
            self.wf(),
            pos <= self.n,
            e1 <= self.n,
        ensures
            match r {
                Ok((e, node)) => parse_let_v(self.src@, pos as int, e1 as int, fuel as nat)
                    == Ok::<_, ErrV>((e as int, node@)) && e <= self.n,
                Err(er) => parse_let_v(self.src@, pos as int, e1 as int, fuel as nat) == Err::<
                    (int, NodeV),
                    _,
                >(er@),
            },
        decreases fuel, 4int,
    {
        if fuel == 0 {
            return Err(MemlError::RecursionLimitExceeded);
        }
        let w = self.skip_ws(e1);
        if !(w < self.n) {
            return Err(MemlError::ParseFailure { pos: w });
        }
        let sigil = self.at(w);
        if !(sigil == '$' || sigil == '!') {
            return Err(MemlError::ParseFailure { pos: w });
        }
        match self.parse_ident(w + 1) {
            Err(e) => Err(e),
            Ok((e2, name)) => {
                let w2 = self.skip_ws(e2);
                if !(w2 < self.n && self.at(w2) == '=') {
                    return Err(MemlError::ParseFailure { pos: w2 });
                }
                let w3 = self.skip_ws(w2 + 1);
                if sigil == '$' {
                    match self.parse_string_lit(w3, fuel - 1) {
                        Err(e) => Err(e),
                        Ok((e3, str_node)) => {
                            let ghost strv = str_node@;
                            let mut ch: Vec<Node> = Vec::new();
                            ch.push(Node::leaf(NodeKind::Ident, name, w + 1));
                            let ghost namev = ch@[0]@.text;
                            ch.push(str_node);
                            let node = Node::branch(NodeKind::StringDef, ch, pos);
                            proof {
                                assert(node@.children =~= seq![
                                    ident_leaf_v(namev, w + 1 as int),
                                    strv,
                                ]);
                            }
                            Ok((e3, node))
                        },
                    }
                } else {
                    match self.parse_object(w3, fuel - 1) {
                        Err(e) => Err(e),
                        Ok((e3, obj)) => {
                            let ghost objv = obj@;
                            let mut ch: Vec<Node> = Vec::new();
                            ch.push(Node::leaf(NodeKind::Ident, name, w + 1));
                            let ghost namev = ch@[0]@.text;
                            ch.push(obj);
                            let node = Node::branch(NodeKind::ObjectDef, ch, pos);
                            proof {
                                assert(node@.children =~= seq![
                                    ident_leaf_v(namev, w + 1 as int),
                                    objv,
                                ]);
                            }
                            Ok((e3, node))
                        },
                    }
                }
            },
        }
    }

    /// A function definition at `pos`, the keyword ending at `e1`.
    fn parse_func_def(&self, pos: usize, e1: usize, fuel: u128) -> (r: Result<
        (usize, Node),
        MemlError,
    >)
        requires
            self.wf(),
            pos <= self.n,
            e1 <= self.n,
        ensures
            match r {
                Ok((e, node)) => parse_func_def_v(self.src@, pos as int, e1 as int, fuel as nat)
                    == Ok::<_, ErrV>((e as int, node@)) && e <= self.n,
                Err(er) => parse_func_def_v(self.src@, pos as int, e1 as int, fuel as nat)
                    == Err::<(int, NodeV), _>(er@),
            },
        decreases fuel, 4int,
    {
        if fuel == 0 {
            return Err(MemlError::RecursionLimitExceeded);
        }
        let w = self.skip_ws(e1);
        match self.parse_ident(w) {
            Err(e) => Err(e),
            Ok((e2, name)) => {
                if !(e2 < self.n && self.at(e2) == '(') {
                    return Err(MemlError::ParseFailure { pos: e2 });
                }
                match self.parse_params(e2 + 1, fuel - 1) {
                    Err(e) => Err(e),
                    Ok((e3, params)) => {
                        let ghost paramsv = params.deep_view();
                        let w2 = self.skip_ws(e3);
                        match self.parse_object(w2, fuel - 1) {
                            Err(e) => Err(e),
                            Ok((e4, body)) => {
                                let ghost bodyv = body@;
                                let mut ch: Vec<Node> = Vec::new();
                                ch.push(Node::leaf(NodeKind::Ident, name, w));
                                let ghost namev = ch@[0]@.text;
                                ch.push(Node::branch(NodeKind::Params, params, e2 + 1));
                                ch.push(body);
                                let node = Node::branch(NodeKind::FuncDef, ch, pos);
                                proof {
                                    assert(node@.children =~= seq![
                                        ident_leaf_v(namev, w as int),
                                        NodeV {
                                            kind: NodeKind::Params,
                                            text: Seq::<char>::empty(),
                                            children: paramsv,
                                            pos: e2 + 1 as int,
                                        },
                                        bodyv,
                                    ]);
                                }
                                Ok((e4, node))
                            },
                        }
                    },
                }
            },
        }
    }

    /// A macro definition at `pos`, the keyword ending at `e1`.
    fn parse_macro_def(&self, pos: usize, e1: usize, fuel: u128) -> (r: Result<
        (usize, Node),
        MemlError,
    >)
        requires
            self.wf(),
            pos <= self.n,
            e1 <= self.n,
        ensures
            match r {
                Ok((e, node)) => parse_macro_def_v(self.src@, pos as int, e1 as int, fuel as nat)
                    == Ok::<_, ErrV>((e as int, node@)) && e <= self.n,
                Err(er) => parse_macro_def_v(self.src@, pos as int, e1 as int, fuel as nat)
                    == Err::<(int, NodeV), _>(er@),
            },
        decreases fuel, 4int,
    {
        if fuel == 0 {
            return Err(MemlError::RecursionLimitExceeded);
        }
        let w = self.skip_ws(e1);
        match self.parse_ident(w) {
            Err(e) => Err(e),
            Ok((e2, name)) => {
                if !(e2 < self.n && self.at(e2) == '[') {
                    return Err(MemlError::ParseFailure { pos: e2 });
                }
                let de = self.digits_end(e2 + 1);
                if de == e2 + 1 || de - (e2 + 1) > 6 || !(de < self.n && self.at(de) == ']') {
                    return Err(MemlError::ParseFailure { pos: e2 + 1 });
                }
                let digits = self.sub(e2 + 1, de);
                match self.parse_delim_opt(de + 1) {
                    Err(e) => Err(e),
                    Ok((e3, delim)) => {
                        let acc0: Vec<Node> = Vec::new();
                        proof {
                            assert(acc0.deep_view() =~= Seq::<NodeV>::empty());
                        }
                        match self.rawblocks(e3, acc0, fuel - 1) {
                            Err(e) => Err(e),
                            Ok((e4, blocks)) => {
                                if blocks.len() == 0 {
                                    proof {
                                        assert(blocks.deep_view() =~= Seq::<NodeV>::empty());
                                    }
                                    return Err(MemlError::ParseFailure { pos: e3 });
                                }
                                let ghost blocksv = blocks.deep_view();
                                proof {
                                    assert(blocksv.len() > 0);
                                }
                                let mut ch: Vec<Node> = Vec::new();
                                ch.push(Node::leaf(NodeKind::Ident, name, w));
                                let ghost namev = ch@[0]@.text;
                                ch.push(Node::leaf(NodeKind::Num, digits, e2 + 1));
                                ch.push(Node::leaf(NodeKind::Delim, delim, de + 1));
                                let ghost numv = ch@[1]@.text;
                                let ghost delimv = ch@[2]@.text;
                                let mut blocks = blocks;
                                ch.append(&mut blocks);
                                let node = Node::branch(NodeKind::MacroDef, ch, pos);
                                proof {
                                    assert(node@.children =~= seq![
                                        ident_leaf_v(namev, w as int),
                                        NodeV {
                                            kind: NodeKind::Num,
                                            text: numv,
                                            children: Seq::<NodeV>::empty(),
                                            pos: e2 + 1 as int,
                                        },
                                        NodeV {
                                            kind: NodeKind::Delim,
                                            text: delimv,
                                            children: Seq::<NodeV>::empty(),
                                            pos: de + 1 as int,
                                        },
                                    ] + blocksv);
                                }
                                Ok((e4, node))
                            },
                        }
                    },
                }
            },
        }
    }

    /// One top-level item at `pos` (at non-whitespace).
    fn parse_item(&self, pos: usize, fuel: u128) -> (r: Result<(usize, Node), MemlError>)
        requires
            self.wf(),
            pos <= self.n,
        ensures
            match r {
                Ok((e, node)) => parse_item_v(self.src@, pos as int, fuel as nat) == Ok::<
                    _,
                    ErrV,
                >((e as int, node@)) && e <= self.n,
                Err(er) => parse_item_v(self.src@, pos as int, fuel as nat) == Err::<
                    (int, NodeV),
                    _,
                >(er@),
            },
        decreases fuel, 3int,
    {
        if fuel == 0 {
            return Err(MemlError::RecursionLimitExceeded);
        }
        if !(pos < self.n) {
            return Err(MemlError::ParseFailure { pos });
        }
        let c = self.at(pos);
        if c == '!' {
            match self.parse_ident(pos + 1) {
                Err(e) => Err(e),
                Ok((e, name)) => {
                    let mut ch: Vec<Node> = Vec::new();
                    ch.push(Node::leaf(NodeKind::Ident, name, pos + 1));
                    let ghost namev = ch@[0]@.text;
                    let node = Node::branch(NodeKind::TemplateUse, ch, pos);
                    proof {
                        assert(node@.children =~= seq![ident_leaf_v(namev, pos + 1 as int)]);
                    }
                    Ok((e, node))
                },
            }
        } else if c == '@' {
            self.parse_macro_use(pos, fuel - 1)
        } else if Self::is_ident_char(c) {
            match self.parse_ident(pos) {
                Err(e) => Err(e),
                Ok((e1, kw)) => {
                    if kw == String::from_str("let") {
                        self.parse_let(pos, e1, fuel - 1)
                    } else if kw == String::from_str("def") {
                        self.parse_func_def(pos, e1, fuel - 1)
                    } else if kw == String::from_str("macro") {
                        self.parse_macro_def(pos, e1, fuel - 1)
                    } else if kw == String::from_str("export") {
                        let w = self.skip_ws(e1);
                        match self.parse_item(w, fuel - 1) {
                            Err(e) => Err(e),
                            Ok((e2, inner)) => {
                                let is_def = inner.kind == NodeKind::StringDef || inner.kind
                                    == NodeKind::ObjectDef || inner.kind == NodeKind::FuncDef
                                    || inner.kind == NodeKind::MacroDef;
                                if is_def {
                                    let ghost innerv = inner@;
                                    let mut ch: Vec<Node> = Vec::new();
                                    ch.push(inner);
                                    let node = Node::branch(NodeKind::Export, ch, pos);
                                    proof {
                                        assert(node@.children =~= seq![innerv]);
                                    }
                                    Ok((e2, node))
                                } else {
                                    Err(MemlError::ParseFailure { pos: w })
                                }
                            },
                        }
                    } else if kw == String::from_str("import") {
                        let w = self.skip_ws(e1);
                        match self.parse_ident(w) {
                            Err(e) => Err(e),
                            Ok((e2, kind_word)) => {
                                let w2 = self.skip_ws(e2);
                                match self.parse_ident(w2) {
                                    Err(e) => Err(e),
                                    Ok((e3, name)) => {
                                        let mut ch: Vec<Node> = Vec::new();
                                        ch.push(Node::leaf(NodeKind::Ident, kind_word, w));
                                        let ghost kindv = ch@[0]@.text;
                                        ch.push(Node::leaf(NodeKind::Ident, name, w2));
                                        let ghost namev = ch@[1]@.text;
                                        let node = Node::branch(NodeKind::Import, ch, pos);
                                        proof {
                                            assert(node@.children =~= seq![
                                                ident_leaf_v(kindv, w as int),
                                                ident_leaf_v(namev, w2 as int),
                                            ]);
                                        }
                                        Ok((e3, node))
                                    },
                                }
                            },
                        }
                    } else {
                        if e1 < self.n && self.at(e1) == ':' {
                            match self.parse_ident(e1 + 1) {
                                Err(e) => Err(e),
                                Ok((e2, id2)) => self.parse_object_tail(e2, kw, id2, pos, fuel - 1),
                            }
                        } else {
                            let ns = String::new();
                            proof {
                                assert(ns@ =~= Seq::<char>::empty());
                            }
                            self.parse_object_tail(e1, ns, kw, pos, fuel - 1)
                        }
                    }
                },
            }
        } else {
            Err(MemlError::ParseFailure { pos })
        }
    }

    /// The top-level items from `pos` to the end of input, appended to `acc`.
    fn items(&self, pos: usize, acc: Vec<Node>, fuel: u128) -> (r: Result<Vec<Node>, MemlError>)
        requires
            self.wf(),
            pos <= self.n,
        ensures
            match r {
                Ok(nodes) => items_from(self.src@, pos as int, acc.deep_view(), fuel as nat)
                    == Ok::<_, ErrV>(nodes.deep_view()),
                Err(er) => items_from(self.src@, pos as int, acc.deep_view(), fuel as nat)
                    == Err::<Seq<NodeV>, _>(er@),
            },
        decreases fuel, 4int,
    {
        if fuel == 0 {
            return Err(MemlError::RecursionLimitExceeded);
        }
        let w = self.skip_ws(pos);
        if w >= self.n {
            return Ok(acc);
        }
        match self.parse_item(w, fuel - 1) {
            Err(e) => Err(e),
            Ok((e, node)) => {
                let mut acc = acc;
                let ghost pre = acc.deep_view();
                acc.push(node);
                proof {
                    assert(acc.deep_view() =~= pre.push(acc@.last()@));
                }
                self.items(e, acc, fuel - 1)
            },
        }
    }
}

/// Parses a whole MEML source text into its top-level items.
pub fn parse_raw(raw_input: &str) -> (r: Result<Vec<Node>, MemlError>)
    ensures
        match r {
            Ok(nodes) => parse_raw_v(raw_input@) == Ok::<_, ErrV>(nodes.deep_view()),
            Err(er) => parse_raw_v(raw_input@) == Err::<Seq<NodeV>, _>(er@),
        },
{
    let p = MemlParser::new(raw_input.to_owned());
    let acc0: Vec<Node> = Vec::new();
    proof {
        assert(acc0.deep_view() =~= Seq::<NodeV>::empty());
    }
    let fuel = (p.n as u128) + 2;
    p.items(0, acc0, fuel)
}

/// Parses the text a macro call generated as one standalone object fragment.
pub fn parse_fragment(raw_input: &str) -> (r: Result<Node, MemlError>)
    ensures
        match r {
            Ok(node) => parse_fragment_v(raw_input@) == Ok::<_, ErrV>(node@),
            Err(er) => parse_fragment_v(raw_input@) == Err::<NodeV, _>(er@),
        },
{
    let p = MemlParser::new(raw_input.to_owned());
    let fuel = (p.n as u128) + 2;
    let w = p.skip_ws(0);
    match p.parse_object(w, fuel) {
        Err(e) => Err(e),
        Ok((e, node)) => {
            let w2 = p.skip_ws(e);
            if w2 >= p.n {
                Ok(node)
            } else {
                Err(MemlError::ParseFailure { pos: w2 })
            }
        },
    }
}

} // verus!
