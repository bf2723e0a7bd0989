//! Macros: textual blueprints with numbered placeholders.
//!
//! A macro stores a blueprint text, an arity, and a default delimiter. A call
//! splits its raw argument text on one delimiter (a call-site override wins
//! over the declared default) and requires the token count to equal the
//! arity exactly. The filled text is one left-to-right pass over the
//! blueprint: each placeholder occurrence emits its argument, trimmed, and
//! emitted argument text is never rescanned, so the result does not depend
//! on any substitution order. The filled text is returned for re-parsing at
//! the call site; macros are not hygienic.

use vstd::prelude::*;

use crate::error::res_view;
use crate::error::ErrV;
use crate::error::MemlError;
use crate::node::Node;
use crate::node::NodeKind;
use crate::node::NodeV;
use crate::text::contains_str;
use crate::text::contains_v;
use crate::text::digits_of;
use crate::text::fmt_usize;
use crate::text::is_digits;
use crate::text::match_at;
use crate::text::matches_at;
use crate::text::num_of;
use crate::text::split_str;
use crate::text::split_v;
use crate::text::trim_str;
use crate::text::trim_v;

verus! {

/// Ghost mirror of [`MacroFn`].
pub struct MacroV {
    pub arg_count: int,
    pub blueprint: Seq<char>,
    pub delimiter: Seq<char>,
    pub name: Seq<char>,
}

/// A macro definition.
#[derive(Debug)]
pub struct MacroFn {
    /// The declared arity: a call must supply exactly this many arguments.
    pub arg_count: usize,
    /// The blueprint text holding the placeholders `#1` to `#arg_count`.
    pub blueprint: String,
    /// The default delimiter that splits a call's raw argument text.
    pub delimiter: String,
    /// The macro's own name, carried for diagnostics.
    pub name: String,
}

impl View for MacroFn {
    type V = MacroV;

    open spec fn view(&self) -> MacroV {
        MacroV {
            arg_count: self.arg_count as int,
            blueprint: self.blueprint@,
            delimiter: self.delimiter@,
            name: self.name@,
        }
    }
}

impl Clone for MacroFn {
    /// A copy with the same view as the original.
    fn clone(&self) -> (r: MacroFn)
        ensures
            r@ == self@,
    {
        MacroFn {
            arg_count: self.arg_count,
            blueprint: self.blueprint.clone(),
            delimiter: self.delimiter.clone(),
            name: self.name.clone(),
        }
    }
}

/// The placeholder text `#i`.
pub open spec fn placeholder_of(i: int) -> Seq<char> {
    seq!['#'] + digits_of(i)
}

/// The placeholder standing at position `pos` of the blueprint, if any: the
/// lowest index in `i..=n` whose literal `#i` occurs there. Candidates at
/// one position are prefixes of one digit run, so the lowest index is also
/// the shortest match.
pub open spec fn ph_at(bp: Seq<char>, pos: int, i: int, n: int) -> Option<int>
    decreases n - i + 1,
{
    if i < 1 || i > n {
        Option::<int>::None
    } else if matches_at(bp, placeholder_of(i), pos) {
        Some(i)
    } else {
        ph_at(bp, pos, i + 1, n)
    }
}

/// What a found placeholder means: a real match at that position, of an
/// index in range, with no lower index matching there.
proof fn lemma_ph_at_some(bp: Seq<char>, pos: int, i: int, n: int, j: int)
    requires
        ph_at(bp, pos, i, n) == Some(j),
    ensures
        i <= j <= n,
        matches_at(bp, placeholder_of(j), pos),
        forall|t: int| i <= t < j ==> !matches_at(bp, #[trigger] placeholder_of(t), pos),
    decreases n - i + 1,
{
    if !(i < 1 || i > n) && !matches_at(bp, placeholder_of(i), pos) {
        lemma_ph_at_some(bp, pos, i + 1, n, j);
    }
}

/// One left-to-right pass over the blueprint from `pos`: a placeholder
/// occurrence emits its argument, trimmed; any other character is copied
/// unchanged. Emitted argument text is never rescanned, so the result is
/// independent of any substitution order.
pub open spec fn fill_pass(bp: Seq<char>, parts: Seq<Seq<char>>, pos: int) -> Seq<char>
    decreases bp.len() - pos,
    via fill_pass_decreases
{
    if pos < 0 || pos >= bp.len() {
        Seq::<char>::empty()
    } else {
        match ph_at(bp, pos, 1, parts.len() as int) {
            Option::Some(i) => trim_v(parts[i - 1]) + fill_pass(
                bp,
                parts,
                pos + placeholder_of(i).len(),
            ),
            Option::None => seq![bp[pos]] + fill_pass(bp, parts, pos + 1),
        }
    }
}

#[via_fn]
proof fn fill_pass_decreases(bp: Seq<char>, parts: Seq<Seq<char>>, pos: int) {
    if 0 <= pos < bp.len() {
        if let Some(i) = ph_at(bp, pos, 1, parts.len() as int) {
            lemma_ph_at_some(bp, pos, 1, parts.len() as int, i);
        }
    }
}

/// What a macro call returns: one pass of [`fill_pass`] over the blueprint,
/// or the error that stops it. The call-site delimiter wins over the
/// declared one when non-empty; the token count must equal the arity
/// exactly; and the blueprint itself must hold every declared placeholder,
/// checked here once more defensively after the definition-time check.
pub open spec fn macro_fill(m: MacroV, raw_args: Seq<char>, delim_arg: Seq<char>) -> Result<
    Seq<char>,
    ErrV,
> {
    let delim = if delim_arg.len() > 0 {
        delim_arg
    } else {
        m.delimiter
    };
    let parts = split_v(raw_args, delim);
    if parts.len() != m.arg_count {
        Err(ErrV::ArityMismatch { name: m.name, expected: m.arg_count, got: parts.len() as int })
    } else {
        match check_placeholders(m, 1) {
            Option::Some(e) => Err(e),
            Option::None => Ok(fill_pass(m.blueprint, parts, 0)),
        }
    }
}

/// The texts of a macro definition's blueprint blocks, concatenated from
/// child `from` on.
pub open spec fn concat_texts(children: Seq<NodeV>, from: int) -> Seq<char>
    decreases children.len() - from,
{
    if from < 0 || from >= children.len() {
        Seq::<char>::empty()
    } else {
        children[from].text + concat_texts(children, from + 1)
    }
}

/// What defining a macro from a `MacroDef` node yields: its key in the
/// callables namespace and the stored definition. The declared delimiter
/// applies when non-empty, else a comma; the blueprint is the concatenation
/// of the definition's raw blocks; every placeholder up to the arity must
/// occur in the blueprint.
pub open spec fn macro_construct_v(n: NodeV) -> Result<(Seq<char>, MacroV), ErrV> {
    if n.kind != NodeKind::MacroDef || n.children.len() < 4 || n.children[0].kind
        != NodeKind::Ident || n.children[1].kind != NodeKind::Num || n.children[1].text.len() == 0
        || n.children[1].text.len() > 6 || !is_digits(n.children[1].text) || n.children[2].kind
        != NodeKind::Delim {
        Err(ErrV::InternalInvariant { pos: n.pos, text: n.text })
    } else {
        let name = n.children[0].text;
        let count = num_of(n.children[1].text);
        let delim = if n.children[2].text.len() == 0 {
            seq![',']
        } else {
            n.children[2].text
        };
        let m = MacroV {
            arg_count: count,
            blueprint: concat_texts(n.children, 3),
            delimiter: delim,
            name,
        };
        match check_placeholders(m, 1) {
            Option::None => Ok((name, m)),
            Option::Some(e) => Err(e),
        }
    }
}

/// The first missing placeholder at or above index `i`, if any.
pub open spec fn check_placeholders(m: MacroV, i: int) -> Option<ErrV>
    decreases m.arg_count - i + 1,
{
    if i < 1 || i > m.arg_count {
        Option::<ErrV>::None
    } else if !contains_v(m.blueprint, placeholder_of(i)) {
        Some(ErrV::MissingPlaceholder { name: m.name, index: i })
    } else {
        check_placeholders(m, i + 1)
    }
}

/// Law: a macro declared with arity `n`, called with a raw argument text
/// that splits into some other number of tokens, fails with `ArityMismatch`
/// carrying the declared and the supplied counts; with exactly `n` tokens
/// (and every placeholder present in the blueprint) the result is one
/// left-to-right pass over the blueprint in which each occurrence of `#i`
/// emits the i-th token, trimmed. Emitted text is never rescanned, so no
/// internal substitution order exists for the result to depend on.
pub proof fn lemma_call_arity(m: MacroV, raw_args: Seq<char>, delim_arg: Seq<char>)
    ensures
        ({
            let delim = if delim_arg.len() > 0 {
                delim_arg
            } else {
                m.delimiter
            };
            let parts = split_v(raw_args, delim);
            &&& (parts.len() != m.arg_count ==> macro_fill(m, raw_args, delim_arg) == Err::<
                Seq<char>,
                _,
            >(
                ErrV::ArityMismatch {
                    name: m.name,
                    expected: m.arg_count,
                    got: parts.len() as int,
                },
            ))
            &&& (parts.len() == m.arg_count && check_placeholders(m, 1) is None ==> macro_fill(
                m,
                raw_args,
                delim_arg,
            ) == Ok::<_, ErrV>(fill_pass(m.blueprint, parts, 0)))
        }),
{
}

impl MacroFn {
    /// Reads a macro definition node into its key and stored definition.
    /// The placeholder check of the blueprint happens here, at definition
    /// time, and once more defensively on every call.
    #[verifier::loop_isolation(false)]
    pub fn construct(node: &Node) -> (r: Result<(String, MacroFn), MemlError>)
        ensures
            match r {
                Ok((key, m)) => macro_construct_v(node@) == Ok::<_, ErrV>((key@, m@)),
                Err(e) => macro_construct_v(node@) == Err::<(Seq<char>, MacroV), _>(e@),
            },
    {
        broadcast use crate::node::lemma_node_view_fields;

        if !(node.kind == NodeKind::MacroDef && node.children.len() >= 4) {
            return Err(MemlError::InternalInvariant { pos: node.pos, text: node.text.clone() });
        }
        let name_ok = node.children[0].kind == NodeKind::Ident;
        let num_ok = node.children[1].kind == NodeKind::Num;
        let delim_ok = node.children[2].kind == NodeKind::Delim;
        if !(name_ok && num_ok && delim_ok) {
            return Err(MemlError::InternalInvariant { pos: node.pos, text: node.text.clone() });
        }
        let arity = match parse_arity(&node.children[1].text) {
            Some(c) => c,
            None => {
                return Err(MemlError::InternalInvariant {
                    pos: node.pos,
                    text: node.text.clone(),
                });
            },
        };
        let name = node.children[0].text.clone();
        let delimiter = if node.children[2].text.as_str().is_empty() {
            String::from_str(",")
        } else {
            node.children[2].text.clone()
        };
        proof {
            reveal_strlit(",");
            assert(","@ =~= seq![',']);
        }

        let mut blueprint = String::new();
        let mut i: usize = 3;
        proof {
            assert(blueprint@ + concat_texts(node@.children, 3) =~= concat_texts(
                node@.children,
                3,
            ));
        }
        while i < node.children.len()
            invariant
                3 <= i <= node.children@.len(),
                node.children@.len() == node@.children.len(),
                blueprint@ + concat_texts(node@.children, i as int) == concat_texts(
                    node@.children,
                    3,
                ),
            decreases node.children@.len() - i,
        {
            blueprint.append(node.children[i].text.as_str());
            proof {
                assert(node@.children[i as int].text == node.children@[i as int]@.text);
                assert(blueprint@ + concat_texts(node@.children, i as int + 1) =~= concat_texts(
                    node@.children,
                    3,
                ));
            }
            i = i + 1;
        }
        proof {
            assert(blueprint@ + concat_texts(node@.children, node@.children.len() as int)
                =~= blueprint@);
        }

        let m = MacroFn { arg_count: arity, blueprint, delimiter, name: name.clone() };
        proof {
            assert(m@.blueprint =~= concat_texts(node@.children, 3));
        }
        match Self::first_missing_placeholder(&m) {
            None => Ok((name, m)),
            Some(e) => Err(e),
        }
    }

    /// The first missing placeholder of a macro's blueprint, if any.
    fn first_missing_placeholder(m: &MacroFn) -> (r: Option<MemlError>)
        ensures
            match r {
                Some(e) => check_placeholders(m@, 1) == Some(e@),
                None => check_placeholders(m@, 1) is None,
            },
    {
        let mut i: usize = 0;
        while i < m.arg_count
            invariant
                i <= m.arg_count,
                check_placeholders(m@, 1) == check_placeholders(m@, i as int + 1),
            decreases m.arg_count - i,
        {
            let idx = i + 1;
            let mut ph = String::new();
            ph.append("#");
            let digits = fmt_usize(idx);
            ph.append(digits.as_str());
            proof {
                reveal_strlit("#");
                assert("#"@ =~= seq!['#']);
                assert(ph@ =~= placeholder_of(idx as int));
            }
            if !contains_str(m.blueprint.as_str(), ph.as_str()) {
                return Some(MemlError::MissingPlaceholder { name: m.name.clone(), index: idx });
            }
            i = idx;
        }
        None
    }

    /// The placeholder standing at position `pos` of the blueprint, if any:
    /// its index and the length of its literal.
    #[verifier::loop_isolation(false)]
    fn find_placeholder(&self, pos: usize, n: usize) -> (r: Option<(usize, usize)>)
        ensures
            match r {
                Some((idx, phlen)) => ph_at(self.blueprint@, pos as int, 1, n as int) == Some(
                    idx as int,
                ) && phlen as int == placeholder_of(idx as int).len() && pos + phlen
                    <= self.blueprint@.len() && 1 <= phlen,
                None => ph_at(self.blueprint@, pos as int, 1, n as int) is None,
            },
    {
        let mut k: usize = 0;
        while k < n
            invariant
                k <= n,
                ph_at(self.blueprint@, pos as int, 1, n as int) == ph_at(
                    self.blueprint@,
                    pos as int,
                    k as int + 1,
                    n as int,
                ),
            decreases n - k,
        {
            let idx = k + 1;
            let mut ph = String::new();
            ph.append("#");
            let digits = fmt_usize(idx);
            ph.append(digits.as_str());
            proof {
                reveal_strlit("#");
                assert("#"@ =~= seq!['#']);
                assert(ph@ =~= placeholder_of(idx as int));
            }
            if match_at(self.blueprint.as_str(), ph.as_str(), pos) {
                let phlen = ph.as_str().unicode_len();
                return Some((idx, phlen));
            }
            k = idx;
        }
        None
    }

    /// Calls the macro: splits the raw argument text, checks the arity,
    /// checks the blueprint's placeholders once more, and fills the
    /// blueprint in one left-to-right pass. The result is text for
    /// re-parsing at the call site.
    #[verifier::loop_isolation(false)]
    pub fn call(&self, raw_args: String, delim_arg: String) -> (r: Result<String, MemlError>)
        ensures
            res_view(r) == macro_fill(self@, raw_args@, delim_arg@),
    {
        let delim = if delim_arg.as_str().is_empty() {
            self.delimiter.clone()
        } else {
            delim_arg
        };
        let parts = split_str(raw_args.as_str(), delim.as_str());
        if parts.len() != self.arg_count {
            return Err(MemlError::ArityMismatch {
                name: self.name.clone(),
                expected: self.arg_count,
                got: parts.len(),
            });
        }
        match Self::first_missing_placeholder(self) {
            Some(e) => {
                return Err(e);
            },
            None => {},
        }
        let ghost bp = self@.blueprint;
        let ghost pv = parts.deep_view();
        let n = self.blueprint.as_str().unicode_len();
        let mut out = String::new();
        let mut pos: usize = 0;
        proof {
            assert(out@ + fill_pass(bp, pv, 0) =~= fill_pass(bp, pv, 0));
        }
        while pos < n
            invariant
                pos <= n,
                n == bp.len(),
                pv.len() == parts@.len(),
                fill_pass(bp, pv, 0) == out@ + fill_pass(bp, pv, pos as int),
            decreases n - pos,
        {
            match self.find_placeholder(pos, parts.len()) {
                Some((idx, phlen)) => {
                    proof {
                        lemma_ph_at_some(bp, pos as int, 1, pv.len() as int, idx as int);
                        assert(pv[idx - 1] == parts@[idx - 1]@);
                    }
                    let trimmed = trim_str(parts[idx - 1].as_str());
                    out.append(trimmed.as_str());
                    proof {
                        assert(out@ + fill_pass(bp, pv, pos + phlen) =~= fill_pass(bp, pv, 0));
                    }
                    pos = pos + phlen;
                },
                None => {
                    let piece = self.blueprint.as_str().substring_char(pos, pos + 1);
                    out.append(piece);
                    proof {
                        assert(piece@ =~= seq![bp[pos as int]]);
                        assert(out@ + fill_pass(bp, pv, pos + 1) =~= fill_pass(bp, pv, 0));
                    }
                    pos = pos + 1;
                },
            }
        }
        proof {
            assert(out@ + fill_pass(bp, pv, n as int) =~= out@);
        }
        Ok(out)
    }
}

/// The arity digits of a macro definition read as a number: at most six
/// digits, nothing else.
pub fn parse_arity(s: &String) -> (r: Option<usize>)
    ensures
        match r {
            Some(c) => s@.len() > 0 && s@.len() <= 6 && is_digits(s@) && c == num_of(s@),
            None => s@.len() == 0 || s@.len() > 6 || !is_digits(s@),
        },
{
    let n = s.as_str().unicode_len();
    if n == 0 || n > 6 {
        return None;
    }
    let mut v: usize = 0;
    let mut i: usize = 0;
    while i < n
        invariant
            0 <= i <= n,
            n == s@.len(),
            n <= 6,
            v == num_of(s@.subrange(0, i as int)),
            v < 1000000,
            forall|t: int| 0 <= t < i ==> 48 <= #[trigger] (s@[t] as u32) <= 57,
        decreases n - i,
    {
        let c = s.as_str().get_char(i);
        let code = c as u32;
        if code < 48 || code > 57 {
            return None;
        }
        proof {
            let pre = s@.subrange(0, i as int);
            let cur = s@.subrange(0, i + 1 as int);
            assert(cur.drop_last() =~= pre);
            assert(cur.last() == s@[i as int]);
            assert(is_digits(cur));
            crate::text::lemma_num_of_bounds(cur);
        }
        v = v * 10 + ((code - 48) as usize);
        i = i + 1;
    }
    proof {
        assert(s@.subrange(0, n as int) =~= s@);
    }
    Some(v)
}

} // verus!
