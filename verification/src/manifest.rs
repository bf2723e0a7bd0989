//! The manifest build orchestrator's decision logic.
//!
//! A manifest is itself a MEML document: its own definitions are resolved
//! first, and its Exported pool becomes the External pool of every managed
//! file, as one immutable snapshot. Its top-level content objects are the
//! build sections. This module reads and validates sections, collects and
//! orders a section's input names, compiles one source text end to end, and
//! takes the diff-based write decision; reading and writing files stays with
//! the caller.

use vstd::prelude::*;

use crate::defs::bind_ns;
use crate::defs::bind_into;
use crate::defs::resolve_v;
use crate::defs::DefMapV;
use crate::defs::DefV;
use crate::defs::DefinitionMap;
use crate::defs::Namespace;
use crate::defs::get_definitions;
use crate::error::res_view;
use crate::error::ErrV;
use crate::error::MemlError;
use crate::node::Node;
use crate::node::NodeKind;
use crate::node::NodeV;
use crate::object::contents_v;
use crate::object::get_contents;
use crate::object::xml_of;
use crate::object::ObjectV;
use crate::parser::parse_raw;
use crate::parser::parse_raw_v;
use crate::string::interp_string_v;
use crate::string::parse_string;
use crate::text::clone_strings;
use crate::text::dedup_adjacent;
use crate::text::dedup_adjacent_v;
use crate::text::ends_with_str;
use crate::text::ends_with_v;
use crate::text::join_names;
use crate::text::join_v;
use crate::text::sort_names;
use crate::text::sort_names_v;

verus! {

/// The default recursion-depth guard for evaluation.
pub const DEPTH_LIMIT: u64 = 256;

/// What a section asks for: an XML write, or validation only (spelled
/// `none` in manifest source).
#[derive(Debug, Clone, Copy, PartialEq, Eq, Structural)]
pub enum SectionAction {
    Xml,
    Skip,
}

/// Ghost mirror of [`ManifestSection`].
pub struct SectionV {
    pub name: Seq<char>,
    pub action: SectionAction,
    pub directories: Seq<Seq<char>>,
    pub files: Seq<Seq<char>>,
    pub extension: Seq<char>,
    pub target: Seq<char>,
}

/// One validated build section.
#[derive(Debug)]
pub struct ManifestSection {
    /// The section object's name, used in diagnostics.
    pub name: String,
    /// What to do with each input.
    pub action: SectionAction,
    /// The declared directories, to be scanned by the caller.
    pub directories: Vec<String>,
    /// The explicitly declared input files.
    pub files: Vec<String>,
    /// The output extension override; empty means the default.
    pub extension: String,
    /// The target directory; required unless the action is `none`.
    pub target: String,
}

impl View for ManifestSection {
    type V = SectionV;

    open spec fn view(&self) -> SectionV {
        SectionV {
            name: self.name@,
            action: self.action,
            directories: self.directories.deep_view(),
            files: self.files.deep_view(),
            extension: self.extension@,
            target: self.target@,
        }
    }
}

impl DeepView for ManifestSection {
    type V = SectionV;

    open spec fn deep_view(&self) -> SectionV {
        self.view()
    }
}

/// The fold state while reading a section's properties.
pub struct SectionAccV {
    pub action: Option<SectionAction>,
    pub directories: Seq<Seq<char>>,
    pub files: Seq<Seq<char>>,
    pub extension: Seq<char>,
    pub target: Seq<char>,
}

/// One property applied to the fold state: `action`, repeatable `directory`
/// and `file`, `change_extension` and `target` are recognized; any other
/// name is fatal, as is an unsupported action value.
pub open spec fn section_prop_v(
    name: Seq<char>,
    key: Seq<char>,
    value: Seq<char>,
    acc: SectionAccV,
) -> Result<SectionAccV, ErrV> {
    if key == "action"@ {
        if value == "xml"@ {
            Ok(SectionAccV { action: Some(SectionAction::Xml), ..acc })
        } else if value == "none"@ {
            Ok(SectionAccV { action: Some(SectionAction::Skip), ..acc })
        } else {
            Err(ErrV::InvalidManifestSection { section: name, field: key })
        }
    } else if key == "directory"@ {
        Ok(SectionAccV { directories: acc.directories.push(value), ..acc })
    } else if key == "file"@ {
        Ok(SectionAccV { files: acc.files.push(value), ..acc })
    } else if key == "change_extension"@ {
        Ok(SectionAccV { extension: value, ..acc })
    } else if key == "target"@ {
        Ok(SectionAccV { target: value, ..acc })
    } else {
        Err(ErrV::InvalidManifestSection { section: name, field: key })
    }
}

/// The section's property components from index `i` on folded into `acc`.
/// Only plain properties may stand in a section.
pub open spec fn section_fold_v(
    name: Seq<char>,
    comps: Seq<NodeV>,
    i: int,
    locals: DefMapV,
    external: DefMapV,
    acc: SectionAccV,
) -> Result<SectionAccV, ErrV>
    decreases comps.len() - i,
{
    if i < 0 || i >= comps.len() {
        Result::<SectionAccV, ErrV>::Ok(acc)
    } else {
        let c = comps[i];
        if c.kind != NodeKind::Property || c.children.len() != 2 || c.children[0].kind
            != NodeKind::Ident {
            Err(ErrV::InvalidManifestSection { section: name, field: c.text })
        } else {
            match interp_string_v(c.children[1], locals, external, Option::None) {
                Err(e) => Err(e),
                Ok(v) => match section_prop_v(name, c.children[0].text, v, acc) {
                    Err(e) => Err(e),
                    Ok(acc2) => section_fold_v(name, comps, i + 1, locals, external, acc2),
                },
            }
        }
    }
}

/// What reading one section node yields: its validated fields. An action is
/// required; a non-`none` action requires a target; at least one input
/// (file or directory) is required.
pub open spec fn section_of_v(n: NodeV, locals: DefMapV, external: DefMapV) -> Result<
    SectionV,
    ErrV,
> {
    if !(n.kind == NodeKind::Object && n.children.len() >= 2 && n.children[0].kind
        == NodeKind::Ident && n.children[1].kind == NodeKind::Ident) {
        Err(ErrV::InternalInvariant { pos: n.pos, text: n.text })
    } else {
        let name = n.children[1].text;
        let acc0 = SectionAccV {
            action: Option::<SectionAction>::None,
            directories: Seq::<Seq<char>>::empty(),
            files: Seq::<Seq<char>>::empty(),
            extension: Seq::<char>::empty(),
            target: Seq::<char>::empty(),
        };
        match section_fold_v(name, n.children, 2, locals, external, acc0) {
            Err(e) => Err(e),
            Ok(acc) => match acc.action {
                Option::None => Err(ErrV::InvalidManifestSection {
                    section: name,
                    field: "action"@,
                }),
                Option::Some(action) => {
                    if action != SectionAction::Skip && acc.target.len() == 0 {
                        Err(ErrV::InvalidManifestSection { section: name, field: "target"@ })
                    } else if acc.directories.len() == 0 && acc.files.len() == 0 {
                        Err(ErrV::InvalidManifestSection { section: name, field: "input"@ })
                    } else {
                        Ok(SectionV {
                            name,
                            action,
                            directories: acc.directories,
                            files: acc.files,
                            extension: acc.extension,
                            target: acc.target,
                        })
                    }
                },
            },
        }
    }
}

/// The sections of all the manifest's leftover content nodes, in order.
pub open spec fn sections_v(
    nodes: Seq<NodeV>,
    i: int,
    acc: Seq<SectionV>,
    locals: DefMapV,
    external: DefMapV,
) -> Result<Seq<SectionV>, ErrV>
    decreases nodes.len() - i,
{
    if i < 0 || i >= nodes.len() {
        Result::<Seq<SectionV>, ErrV>::Ok(acc)
    } else {
        match section_of_v(nodes[i], locals, external) {
            Err(e) => Err(e),
            Ok(s) => sections_v(nodes, i + 1, acc.push(s), locals, external),
        }
    }
}

/// The scanned entries that carry the MEML source extension.
pub open spec fn keep_meml_v(entries: Seq<Seq<char>>) -> Seq<Seq<char>>
    decreases entries.len(),
{
    if entries.len() == 0 {
        Seq::<Seq<char>>::empty()
    } else if ends_with_v(entries.last(), ".meml"@) {
        keep_meml_v(entries.drop_last()).push(entries.last())
    } else {
        keep_meml_v(entries.drop_last())
    }
}

/// A section's input names: the explicit files joined with the
/// `.meml`-suffixed scanned entries, sorted, duplicates dropped.
pub open spec fn inputs_v(files: Seq<Seq<char>>, scanned: Seq<Seq<char>>) -> Seq<Seq<char>> {
    dedup_adjacent_v(sort_names_v(files + keep_meml_v(scanned)))
}

/// The serializations of the output objects, concatenated in order.
pub open spec fn xml_concat(objs: Seq<ObjectV>) -> Seq<char>
    decreases objs.len(),
{
    if objs.len() == 0 {
        Seq::<char>::empty()
    } else {
        xml_concat(objs.drop_last()) + xml_of(objs.last())
    }
}

/// What compiling one source text yields: parse, resolve against the shared
/// External pool, build the leftover content into objects, and serialize
/// them back to back.
pub open spec fn compile_source_v(src: Seq<char>, external: DefMapV, fuel: nat) -> Result<
    Seq<char>,
    ErrV,
> {
    match parse_raw_v(src) {
        Err(e) => Err(e),
        Ok(items) => match resolve_v(items, external) {
            Err(e) => Err(e),
            Ok((locals, exports, remaining)) => match contents_v(
                remaining,
                0,
                Seq::<ObjectV>::empty(),
                locals,
                external,
                fuel,
            ) {
                Err(e) => Err(e),
                Ok(objs) => Ok(xml_concat(objs)),
            },
        },
    }
}

/// Whether a target must be (re)written: only when it is absent or its
/// current text differs from the freshly rendered text.
pub open spec fn spec_should_write(existing: Option<Seq<char>>, rendered: Seq<char>) -> bool {
    match existing {
        Option::None => true,
        Option::Some(e) => e != rendered,
    }
}

/// Law: a second run over unchanged sources writes nothing. Compilation is a
/// function of the source and the External snapshot alone, so the bytes of a
/// first run's output, found on disk, equal the fresh rendering, and the
/// write decision is negative.
pub proof fn lemma_rebuild_idempotent(src: Seq<char>, external: DefMapV, fuel: nat)
    ensures
        compile_source_v(src, external, fuel) matches Ok(out) ==> !spec_should_write(
            Some(out),
            out,
        ),
{
}

/// Reads and validates the manifest's build sections from its leftover
/// content nodes.
#[verifier::loop_isolation(false)]
pub fn manifest_sections(
    nodes: &Vec<Node>,
    locals: &DefinitionMap,
    external: &DefinitionMap,
) -> (r: Result<Vec<ManifestSection>, MemlError>)
    ensures
        match r {
            Ok(secs) => sections_v(
                nodes.deep_view(),
                0,
                Seq::<SectionV>::empty(),
                locals@,
                external@,
            ) == Ok::<_, ErrV>(secs.deep_view()),
            Err(e) => sections_v(
                nodes.deep_view(),
                0,
                Seq::<SectionV>::empty(),
                locals@,
                external@,
            ) == Err::<Seq<SectionV>, _>(e@),
        },
{
    broadcast use crate::node::lemma_node_view_fields;

    let ghost ndv = nodes.deep_view();
    let mut acc: Vec<ManifestSection> = Vec::new();
    proof {
        assert(acc.deep_view() =~= Seq::<SectionV>::empty());
    }
    let mut i: usize = 0;
    while i < nodes.len()
        invariant
            i <= nodes@.len(),
            sections_v(ndv, 0, Seq::<SectionV>::empty(), locals@, external@) == sections_v(
                ndv,
                i as int,
                acc.deep_view(),
                locals@,
                external@,
            ),
        decreases nodes@.len() - i,
    {
        proof {
            assert(ndv[i as int] == nodes@[i as int]@);
        }
        match section_of(&nodes[i], locals, external) {
            Err(e) => {
                return Err(e);
            },
            Ok(s) => {
                let ghost pre = acc.deep_view();
                acc.push(s);
                proof {
                    assert(acc.deep_view() =~= pre.push(acc@.last()@));
                }
            },
        }
        i = i + 1;
    }
    Ok(acc)
}

/// Reads one section node into its validated fields.
#[verifier::loop_isolation(false)]
fn section_of(n: &Node, locals: &DefinitionMap, external: &DefinitionMap) -> (r: Result<
    ManifestSection,
    MemlError,
>)
    ensures
        match r {
            Ok(s) => section_of_v(n@, locals@, external@) == Ok::<_, ErrV>(s@),
            Err(e) => section_of_v(n@, locals@, external@) == Err::<SectionV, _>(e@),
        },
{
    broadcast use crate::node::lemma_node_view_fields;

    if !(n.kind == NodeKind::Object && n.children.len() >= 2 && n.children[0].kind
        == NodeKind::Ident && n.children[1].kind == NodeKind::Ident) {
        return Err(MemlError::InternalInvariant { pos: n.pos, text: n.text.clone() });
    }
    let name = &n.children[1].text;
    let mut action: Option<SectionAction> = None;
    let mut directories: Vec<String> = Vec::new();
    let mut files: Vec<String> = Vec::new();
    let mut extension = String::new();
    let mut target = String::new();
    let ghost acc0 = SectionAccV {
        action: Option::<SectionAction>::None,
        directories: Seq::<Seq<char>>::empty(),
        files: Seq::<Seq<char>>::empty(),
        extension: Seq::<char>::empty(),
        target: Seq::<char>::empty(),
    };
    proof {
        assert(directories.deep_view() =~= Seq::<Seq<char>>::empty());
        assert(files.deep_view() =~= Seq::<Seq<char>>::empty());
        assert(extension@ =~= Seq::<char>::empty());
        assert(target@ =~= Seq::<char>::empty());
    }
    let mut i: usize = 2;
    while i < n.children.len()
        invariant
            2 <= i,
            i <= n.children@.len() || i == 2,
            section_fold_v(name@, n@.children, 2, locals@, external@, acc0) == section_fold_v(
                name@,
                n@.children,
                i as int,
                locals@,
                external@,
                SectionAccV {
                    action,
                    directories: directories.deep_view(),
                    files: files.deep_view(),
                    extension: extension@,
                    target: target@,
                },
            ),
        decreases n.children@.len() - i,
    {
        let c = &n.children[i];
        proof {
            assert(n@.children[i as int] == c@);
        }
        if !(c.kind == NodeKind::Property && c.children.len() == 2 && c.children[0].kind
            == NodeKind::Ident) {
            return Err(MemlError::InvalidManifestSection {
                section: name.clone(),
                field: c.text.clone(),
            });
        }
        let v = match parse_string(&c.children[1], locals, external, None) {
            Ok(v) => v,
            Err(e) => {
                return Err(e);
            },
        };
        let key = &c.children[0].text;
        if *key == String::from_str("action") {
            if v == String::from_str("xml") {
                action = Some(SectionAction::Xml);
            } else if v == String::from_str("none") {
                action = Some(SectionAction::Skip);
            } else {
                return Err(MemlError::InvalidManifestSection {
                    section: name.clone(),
                    field: key.clone(),
                });
            }
        } else if *key == String::from_str("directory") {
            let ghost pre = directories.deep_view();
            directories.push(v);
            proof {
                assert(directories.deep_view() =~= pre.push(directories@.last()@));
            }
        } else if *key == String::from_str("file") {
            let ghost pre = files.deep_view();
            files.push(v);
            proof {
                assert(files.deep_view() =~= pre.push(files@.last()@));
            }
        } else if *key == String::from_str("change_extension") {
            extension = v;
        } else if *key == String::from_str("target") {
            target = v;
        } else {
            return Err(MemlError::InvalidManifestSection {
                section: name.clone(),
                field: key.clone(),
            });
        }
        i = i + 1;
    }
    proof {
        reveal_strlit("action");
        reveal_strlit("target");
        reveal_strlit("input");
    }
    match action {
        None => Err(MemlError::InvalidManifestSection {
            section: name.clone(),
            field: String::from_str("action"),
        }),
        Some(act) => {
            if !(matches!(act, SectionAction::Skip)) && target.as_str().is_empty() {
                Err(MemlError::InvalidManifestSection {
                    section: name.clone(),
                    field: String::from_str("target"),
                })
            } else if directories.len() == 0 && files.len() == 0 {
                proof {
                    assert(directories.deep_view() =~= Seq::<Seq<char>>::empty());
                    assert(files.deep_view() =~= Seq::<Seq<char>>::empty());
                }
                Err(MemlError::InvalidManifestSection {
                    section: name.clone(),
                    field: String::from_str("input"),
                })
            } else {
                Ok(ManifestSection {
                    name: name.clone(),
                    action: act,
                    directories,
                    files,
                    extension,
                    target,
                })
            }
        },
    }
}

/// Whether this section's outputs are written at all.
pub fn wants_write(section: &ManifestSection) -> (b: bool)
    ensures
        b == (section@.action == SectionAction::Xml),
{
    matches!(section.action, SectionAction::Xml)
}

/// A section's input names: the explicit files joined with the
/// `.meml`-suffixed entries scanned from its directories, sorted, duplicates
/// dropped.
#[verifier::loop_isolation(false)]
pub fn collect_inputs(files: &Vec<String>, scanned: &Vec<String>) -> (r: Vec<String>)
    ensures
        r.deep_view() == inputs_v(files.deep_view(), scanned.deep_view()),
{
    let mut all = clone_strings(files);
    let ghost base = files.deep_view();
    let mut i: usize = 0;
    while i < scanned.len()
        invariant
            i <= scanned@.len(),
            all.deep_view() =~= base + keep_meml_v(scanned.deep_view().subrange(0, i as int)),
        decreases scanned@.len() - i,
    {
        proof {
            let sv = scanned.deep_view();
            let cur = sv.subrange(0, i + 1 as int);
            assert(cur.drop_last() =~= sv.subrange(0, i as int));
            assert(cur.last() == sv[i as int]);
            assert(sv[i as int] == scanned@[i as int]@);
        }
        if ends_with_str(scanned[i].as_str(), ".meml") {
            let ghost pre = all.deep_view();
            all.push(scanned[i].clone());
            proof {
                assert(all.deep_view() =~= pre.push(all@.last()@));
            }
        }
        i = i + 1;
    }
    proof {
        assert(scanned.deep_view().subrange(0, scanned@.len() as int) =~= scanned.deep_view());
    }
    dedup_adjacent(sort_names(all))
}

/// The output file name: the basename with the override extension, or the
/// default `meml` when none is set.
pub fn output_name(basename: &String, extension: &String) -> (r: String)
    ensures
        r@ == basename@ + seq!['.'] + (if extension@.len() == 0 {
            "meml"@
        } else {
            extension@
        }),
{
    let mut r = basename.clone();
    r.append(".");
    if extension.as_str().is_empty() {
        r.append("meml");
    } else {
        r.append(extension.as_str());
    }
    proof {
        reveal_strlit(".");
        assert("."@ =~= seq!['.']);
    }
    r
}

/// Whether a target must be (re)written: only when it is absent or its
/// current text differs from the freshly rendered text, so unchanged files
/// are never rewritten.
pub fn should_write(existing: Option<&String>, rendered: &String) -> (b: bool)
    ensures
        b == spec_should_write(
            match existing {
                Option::None => Option::<Seq<char>>::None,
                Option::Some(e) => Some(e@),
            },
            rendered@,
        ),
{
    match existing {
        None => true,
        Some(e) => !(*e == *rendered),
    }
}

/// Compiles one source text end to end against the shared External pool.
pub fn compile_source(src: &str, external: &DefinitionMap, fuel: u64) -> (r: Result<
    String,
    MemlError,
>)
    ensures
        res_view(r) == compile_source_v(src@, external@, fuel as nat),
{
    let items = match parse_raw(src) {
        Ok(t) => t,
        Err(e) => {
            return Err(e);
        },
    };
    let (locals, _exports, remaining) = match get_definitions(&items, external) {
        Ok(t) => t,
        Err(e) => {
            return Err(e);
        },
    };
    let objs = match get_contents(&remaining, &locals, external, fuel) {
        Ok(t) => t,
        Err(e) => {
            return Err(e);
        },
    };
    let ghost ov = objs.deep_view();
    let mut out = String::new();
    proof {
        assert(ov.subrange(0, 0) =~= Seq::<ObjectV>::empty());
        assert(out@ =~= xml_concat(ov.subrange(0, 0)));
    }
    let mut i: usize = 0;
    while i < objs.len()
        invariant
            i <= objs@.len(),
            ov == objs.deep_view(),
            out@ == xml_concat(ov.subrange(0, i as int)),
        decreases objs@.len() - i,
    {
        let piece = objs[i].as_xml();
        out.append(piece.as_str());
        proof {
            let cur = ov.subrange(0, i + 1 as int);
            assert(cur.drop_last() =~= ov.subrange(0, i as int));
            assert(cur.last() == ov[i as int]);
            assert(ov[i as int] == objs@[i as int]@);
            assert(out@ =~= xml_concat(cur));
        }
        i = i + 1;
    }
    proof {
        assert(ov.subrange(0, objs@.len() as int) =~= ov);
    }
    Ok(out)
}

/// Records a processed section's basenames as manifest-level meta-state: an
/// injectable constant, named after the section, whose value is the
/// basenames joined with commas, visible to later sections and files.
pub fn record_processed(
    external: &mut DefinitionMap,
    section_name: &String,
    basenames: &Vec<String>,
) -> (r: ())
    ensures
        final(external)@ == bind_ns(
            old(external)@,
            Namespace::Constants,
            section_name@,
            DefV::Constant(join_v(basenames.deep_view(), seq![','])),
        ),
{
    let joined = join_names(basenames, ",");
    proof {
        reveal_strlit(",");
        assert(","@ =~= seq![',']);
    }
    bind_into(external, Namespace::Constants, section_name.clone(), crate::defs::Definition::Constant(joined));
}

} // verus!
