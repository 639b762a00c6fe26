//! The presets of an encoder export, and the choice of the one to encode with.
//!
//! An export can group its presets in folders, so the presets are the leaves of a tree.

use vstd::prelude::*;
use vstd::string::*;

use crate::path::{shown, FilePath};
use crate::text::{same_text, text_view};

verus! {

/// A preset, or a folder of presets.
#[derive(Debug)]
pub struct PresetNode {
    pub preset_name: Option<String>,
    pub file_format: Option<String>,
    pub folder: bool,
    pub children: Vec<PresetNode>,
}

/// An exported preset file.
#[derive(Debug)]
pub struct PresetFile {
    pub preset_list: Vec<PresetNode>,
}

/// The selected preset's name and (optional) output container format.
#[derive(Debug, Clone)]
pub struct PresetInfo {
    pub name: String,
    pub file_format: Option<String>,
}

/// Why no preset could be selected.
#[derive(Debug)]
pub enum PresetError {
    /// No leaf has the wanted name.
    NotFound { name: String, path: FilePath },
    /// The file holds no preset at all.
    Empty { path: FilePath },
    /// The selected node has no name.
    Unnamed,
}

/// The presets under a list of nodes, in the order in which the file lists them.
pub open spec fn leaves(nodes: Seq<PresetNode>) -> Seq<PresetNode>
    decreases nodes,
{
    if nodes.len() == 0 {
        Seq::empty()
    } else {
        leaves(nodes.drop_last()) + leaves_of(nodes.last())
    }
}

/// The presets that one node stands for: those of its children where it is a folder or has
/// children, else itself where it has a name.
pub open spec fn leaves_of(node: PresetNode) -> Seq<PresetNode>
    decreases node,
{
    if node.folder || node.children@.len() > 0 {
        leaves(node.children@)
    } else if node.preset_name is Some {
        seq![node]
    } else {
        Seq::empty()
    }
}

/// A node has this name.
pub open spec fn named(node: PresetNode, name: Seq<char>) -> bool {
    node.preset_name matches Some(n) && n@ == name
}

/// The first of some nodes that has this name.
pub open spec fn first_named(nodes: Seq<PresetNode>, name: Seq<char>) -> Option<PresetNode>
    decreases nodes.len(),
{
    if nodes.len() == 0 {
        None
    } else if named(nodes[0], name) {
        Some(nodes[0])
    } else {
        first_named(nodes.drop_first(), name)
    }
}

/// The preset to use: the first leaf with the wanted name, or the first leaf where none is wanted.
pub open spec fn chosen(nodes: Seq<PresetNode>, wanted: Option<Seq<char>>) -> Option<PresetNode> {
    match wanted {
        Some(name) => first_named(nodes, name),
        None => if nodes.len() > 0 {
            Some(nodes[0])
        } else {
            None
        },
    }
}

/// `result` is what a node says about its preset.
pub open spec fn described(node: PresetNode, result: Result<PresetInfo, PresetError>) -> bool {
    match node.preset_name {
        Some(name) => result matches Ok(info) && info.name@ == name@ && info.file_format
            == node.file_format,
        None => result == Err::<PresetInfo, PresetError>(PresetError::Unnamed),
    }
}

/// `result` is the selection among `nodes`.
pub open spec fn selected(
    nodes: Seq<PresetNode>,
    wanted: Option<Seq<char>>,
    path: FilePath,
    result: Result<PresetInfo, PresetError>,
) -> bool {
    match chosen(nodes, wanted) {
        Some(node) => described(node, result),
        None => match wanted {
            Some(name) => result matches Err(PresetError::NotFound { name: n, path: p }) && n@
                == name && p == path,
            None => result matches Err(PresetError::Empty { path: p }) && p == path,
        },
    }
}

/// Appends the presets under `nodes` to `out`.
pub fn collect_leaves<'a>(nodes: &'a [PresetNode], out: &mut Vec<&'a PresetNode>)
    ensures
        final(out)@.unref() == old(out)@.unref() + leaves(nodes@),
    decreases nodes@,
{
    let len: usize = nodes.len();
    let ghost before = out@.unref();
    assert(leaves(nodes@.take(0)) =~= Seq::<PresetNode>::empty());
    for i in 0..len
        invariant
            len == nodes@.len(),
            out@.unref() == before + leaves(nodes@.take(i as int)),
        decreases nodes@, len - i,
    {
        let node: &'a PresetNode = &nodes[i];
        assert(nodes@.take(i + 1).drop_last() =~= nodes@.take(i as int));
        let ghost so_far = out@.unref();
        if node.folder || node.children.len() > 0 {
            collect_leaves(node.children.as_slice(), out);
        } else if node.preset_name.is_some() {
            out.push(node);
            assert(out@.unref() =~= so_far.push(*node));
        }
        assert(out@.unref() =~= so_far + leaves_of(*node));
        assert(out@.unref() =~= before + leaves(nodes@.take(i + 1)));
    }
    assert(nodes@.take(len as int) =~= nodes@);
}

/// The first of some nodes that has this name.
pub fn find_named<'a>(nodes: &Vec<&'a PresetNode>, name: &str) -> (found: Option<&'a PresetNode>)
    ensures
        match found {
            Some(node) => first_named(nodes@.unref(), name@) == Some(*node),
            None => first_named(nodes@.unref(), name@) is None,
        },
{
    let len: usize = nodes.len();
    assert(nodes@.unref().skip(0) =~= nodes@.unref());
    for i in 0..len
        invariant
            len == nodes@.len(),
            first_named(nodes@.unref(), name@) == first_named(nodes@.unref().skip(i as int), name@),
    {
        let node: &'a PresetNode = nodes[i];
        let ghost rest = nodes@.unref().skip(i as int);
        assert(rest[0] == *node);
        assert(rest.drop_first() =~= nodes@.unref().skip(i + 1));
        if let Some(own) = &node.preset_name {
            if same_text(own.as_str(), name) {
                return Some(node);
            }
        }
    }
    None
}

/// What a node says about its preset.
pub fn to_info(node: &PresetNode) -> (result: Result<PresetInfo, PresetError>)
    ensures
        described(*node, result),
{
    match &node.preset_name {
        Some(name) => Ok(PresetInfo { name: name.clone(), file_format: node.file_format.clone() }),
        None => Err(PresetError::Unnamed),
    }
}

/// Selects the leaf with the wanted name, or the first leaf where none is wanted.
pub fn select(leaves: Vec<&PresetNode>, override_name: Option<&str>, path: &FilePath) -> (result:
    Result<PresetInfo, PresetError>)
    ensures
        selected(leaves@.unref(), text_view(override_name), *path, result),
{
    match override_name {
        Some(name) => match find_named(&leaves, name) {
            Some(node) => to_info(node),
            None => Err(PresetError::NotFound { name: name.to_owned(), path: path.clone() }),
        },
        None => if leaves.len() > 0 {
            assert(leaves@.unref()[0] == *leaves@[0]);
            to_info(leaves[0])
        } else {
            Err(PresetError::Empty { path: path.clone() })
        },
    }
}

/// Picks a leaf preset of a parsed preset file, which was read from `path`.
///
/// If `override_name` is given, selects the matching leaf; otherwise the first.
pub fn load_preset(parsed: &PresetFile, override_name: Option<&str>, path: &FilePath) -> (result:
    Result<PresetInfo, PresetError>)
    ensures
        selected(leaves(parsed.preset_list@), text_view(override_name), *path, result),
{
    let mut found: Vec<&PresetNode> = Vec::new();
    collect_leaves(parsed.preset_list.as_slice(), &mut found);
    assert(found@.unref() =~= leaves(parsed.preset_list@));
    select(found, override_name, path)
}

/// A node that stands for one preset.
pub open spec fn is_preset(node: PresetNode) -> bool {
    !node.folder && node.children@.len() == 0 && node.preset_name is Some
}

/// Every leaf of a tree is a named preset, never a folder.
pub proof fn leaves_are_presets(nodes: Seq<PresetNode>)
    ensures
        forall|i: int| 0 <= i < leaves(nodes).len() ==> is_preset(#[trigger] leaves(nodes)[i]),
    decreases nodes,
{
    if nodes.len() > 0 {
        let (head, tail) = (leaves(nodes.drop_last()), leaves_of(nodes.last()));
        leaves_are_presets(nodes.drop_last());
        leaves_of_are_presets(nodes.last());
        assert(leaves(nodes) == head + tail);
        assert forall|i: int| 0 <= i < leaves(nodes).len() implies is_preset(
            #[trigger] leaves(nodes)[i],
        ) by {
            if i >= head.len() {
                assert(leaves(nodes)[i] == tail[i - head.len()]);
            } else {
                assert(leaves(nodes)[i] == head[i]);
            }
        }
    }
}

/// Every leaf that one node stands for is a named preset.
proof fn leaves_of_are_presets(node: PresetNode)
    ensures
        forall|i: int|
            0 <= i < leaves_of(node).len() ==> is_preset(#[trigger] leaves_of(node)[i]),
    decreases node,
{
    if node.folder || node.children@.len() > 0 {
        leaves_are_presets(node.children@);
        assert(leaves_of(node) == leaves(node.children@));
    } else if node.preset_name is Some {
        assert(leaves_of(node) == seq![node]);
    }
}

/// The first node with a name is one of the nodes, and there is one where any node has the name.
pub proof fn first_named_found(nodes: Seq<PresetNode>, name: Seq<char>)
    ensures
        first_named(nodes, name) matches Some(node) ==> nodes.contains(node) && named(node, name),
        first_named(nodes, name) is Some <==> exists|i: int|
            0 <= i < nodes.len() && named(#[trigger] nodes[i], name),
    decreases nodes.len(),
{
    if nodes.len() > 0 && !named(nodes[0], name) {
        let rest = nodes.drop_first();
        first_named_found(rest, name);
        if first_named(rest, name) is Some {
            let node = first_named(rest, name).unwrap();
            let i = choose|i: int| 0 <= i < rest.len() && rest[i] == node;
            assert(nodes[i + 1] == node);
        }
        assert forall|i: int| 0 <= i < nodes.len() && named(#[trigger] nodes[i], name) implies exists|
            j: int,
        | 0 <= j < rest.len() && named(#[trigger] rest[j], name) by {
            assert(rest[i - 1] == nodes[i]);
        }
    }
}

/// What loading a preset file gives: a selection among its leaves fails only where there is no leaf
/// to select, and then says so; a wanted name is the name that comes back.
pub proof fn selection_outcome(
    nodes: Seq<PresetNode>,
    wanted: Option<Seq<char>>,
    path: FilePath,
    result: Result<PresetInfo, PresetError>,
)
    requires
        selected(leaves(nodes), wanted, path, result),
    ensures
        result !== Err::<PresetInfo, PresetError>(PresetError::Unnamed),
        wanted is None ==> (result is Ok <==> leaves(nodes).len() > 0),
        wanted matches Some(name) ==> (result is Ok <==> exists|i: int|
            0 <= i < leaves(nodes).len() && named(#[trigger] leaves(nodes)[i], name)),
        wanted matches Some(name) ==> (result matches Ok(info) ==> info.name@ == name),
{
    leaves_are_presets(nodes);
    if let Some(name) = wanted {
        first_named_found(leaves(nodes), name);
    }
}

impl PresetError {
    /// What the error says.
    pub open spec fn text(self) -> Seq<char> {
        match self {
            PresetError::NotFound { name, path } => "preset '"@ + name@ + "' not found in "@ + shown(
                path@,
            ),
            PresetError::Empty { path } => "no presets found in "@ + shown(path@),
            PresetError::Unnamed => "preset leaf has no PresetName"@,
        }
    }

    /// What the error says.
    pub fn message(&self) -> (message: String)
        ensures
            message@ == self.text(),
    {
        match self {
            PresetError::NotFound { name, path } => {
                let mut out: String = "preset '".to_owned();
                out.append(name.as_str());
                out.append("' not found in ");
                out.append(path.display().as_str());
                out
            },
            PresetError::Empty { path } => {
                let mut out: String = "no presets found in ".to_owned();
                out.append(path.display().as_str());
                out
            },
            PresetError::Unnamed => "preset leaf has no PresetName".to_owned(),
        }
    }
}

/// The presets of two lists, one behind the other, are those of the first and then those of the
/// second.
pub proof fn leaves_in_order(a: Seq<PresetNode>, b: Seq<PresetNode>)
    ensures
        leaves(a + b) == leaves(a) + leaves(b),
    decreases b.len(),
{
    if b.len() == 0 {
        assert(a + b =~= a);
        assert(leaves(b) =~= Seq::empty());
        assert(leaves(a) + leaves(b) =~= leaves(a));
    } else {
        let ab = a + b;
        leaves_in_order(a, b.drop_last());
        assert(ab.drop_last() =~= a + b.drop_last());
        assert(ab.last() == b.last());
        assert(leaves(ab) =~= leaves(a + b.drop_last()) + leaves_of(b.last()));
        assert(leaves(b) == leaves(b.drop_last()) + leaves_of(b.last()));
        assert(leaves(ab) =~= leaves(a) + leaves(b));
    }
}

/// One node alone stands for itself where it is a named preset, and for what is in it where it is a
/// folder or has children: a folder's own name never counts.
pub proof fn leaves_of_one(node: PresetNode)
    ensures
        node.folder || node.children@.len() > 0 ==> leaves(seq![node]) == leaves(node.children@),
        !node.folder && node.children@.len() == 0 && node.preset_name is Some ==> leaves(seq![node])
            == seq![node],
        !node.folder && node.children@.len() == 0 && node.preset_name is None ==> leaves(seq![node])
            == Seq::<PresetNode>::empty(),
        leaves(Seq::empty()) == Seq::<PresetNode>::empty(),
{
    let one = seq![node];
    assert(one.drop_last() =~= Seq::empty());
    assert(leaves(one.drop_last()) =~= Seq::empty());
    assert(one.last() == node);
    assert(leaves(one) =~= leaves_of(node));
}

/// The preset that comes out is the first one of the file where no name is wanted, and the first one
/// with the wanted name else; its name and its format are that preset's own. Where there is none, the
/// error says what was looked for, and where.
pub proof fn first_preset_comes_out(
    nodes: Seq<PresetNode>,
    wanted: Option<Seq<char>>,
    path: FilePath,
    result: Result<PresetInfo, PresetError>,
)
    requires
        selected(leaves(nodes), wanted, path, result),
    ensures
        wanted is None && leaves(nodes).len() > 0 ==> {
            &&& result matches Ok(info)
            &&& leaves(nodes)[0].preset_name matches Some(name)
            &&& info.name@ == name@
            &&& info.file_format == leaves(nodes)[0].file_format
        },
        wanted matches Some(name) ==> result matches Ok(info) ==> exists|i: int|
            {
                &&& 0 <= i < leaves(nodes).len()
                &&& (#[trigger] leaves(nodes)[i]).preset_name matches Some(own)
                &&& own@ == name
                &&& info.name@ == name
                &&& info.file_format == leaves(nodes)[i].file_format
                &&& forall|j: int|
                    0 <= j < i ==> ((#[trigger] leaves(nodes)[j]).preset_name matches Some(earlier)
                        ==> earlier@ != name)
            },
        wanted is None && leaves(nodes).len() == 0 ==> (result matches Err(
            PresetError::Empty { path: p },
        ) && p == path),
        wanted matches Some(name) ==> result is Err ==> {
            &&& result matches Err(PresetError::NotFound { name: n, path: p })
            &&& n@ == name
            &&& p == path
            &&& forall|i: int|
                0 <= i < leaves(nodes).len() ==> ((
                #[trigger] leaves(nodes)[i]).preset_name matches Some(own) ==> own@ != name)
        },
{
    leaves_are_presets(nodes);
    if let Some(name) = wanted {
        first_named_found(leaves(nodes), name);
        match first_named_at(leaves(nodes), name) {
            Some(i) => {
                assert(is_preset(leaves(nodes)[i]));
            },
            None => {
                assert forall|i: int| 0 <= i < leaves(nodes).len() implies !named(
                    #[trigger] leaves(nodes)[i],
                    name,
                ) by {}
            },
        }
    }
}

/// Where the first node with a name stands.
proof fn first_named_at(nodes: Seq<PresetNode>, name: Seq<char>) -> (at: Option<int>)
    ensures
        match at {
            Some(i) => {
                &&& 0 <= i < nodes.len()
                &&& first_named(nodes, name) == Some(nodes[i])
                &&& named(nodes[i], name)
                &&& forall|j: int| 0 <= j < i ==> !named(#[trigger] nodes[j], name)
            },
            None => {
                &&& first_named(nodes, name) is None
                &&& forall|j: int| 0 <= j < nodes.len() ==> !named(#[trigger] nodes[j], name)
            },
        },
    decreases nodes.len(),
{
    if nodes.len() == 0 {
        None
    } else if named(nodes[0], name) {
        Some(0)
    } else {
        let rest = nodes.drop_first();
        let found = first_named_at(rest, name);
        match found {
            Some(i) => {
                assert(nodes[i + 1] == rest[i]);
                assert forall|j: int| 0 <= j < i + 1 implies !named(#[trigger] nodes[j], name) by {
                    if j > 0 {
                        assert(rest[j - 1] == nodes[j]);
                    }
                }
                Some(i + 1)
            },
            None => {
                assert forall|j: int| 0 <= j < nodes.len() implies !named(
                    #[trigger] nodes[j],
                    name,
                ) by {
                    if j > 0 {
                        assert(rest[j - 1] == nodes[j]);
                    }
                }
                None
            },
        }
    }
}

/// What an error says names the preset that was asked for and the file that it was asked of.
pub proof fn preset_errors_name_the_file(e: PresetError)
    ensures
        e matches PresetError::NotFound { name, path } ==> {
            &&& ("preset '"@ + name@ + "' not found in "@).is_prefix_of(e.text())
            &&& ("' not found in "@ + shown(path@)).is_suffix_of(e.text())
        },
        e matches PresetError::Empty { path } ==> {
            &&& "no presets found in "@.is_prefix_of(e.text())
            &&& shown(path@).is_suffix_of(e.text())
        },
        e is Unnamed ==> e.text() == "preset leaf has no PresetName"@,
{
    let text = e.text();
    match e {
        PresetError::NotFound { name, path } => {
            let start = "preset '"@ + name@ + "' not found in "@;
            let end = "' not found in "@ + shown(path@);
            assert(start =~= text.subrange(0, start.len() as int));
            assert(end =~= text.subrange(text.len() - end.len(), text.len() as int));
        },
        PresetError::Empty { path } => {
            let (start, end) = ("no presets found in "@, shown(path@));
            assert(start =~= text.subrange(0, start.len() as int));
            assert(end =~= text.subrange(text.len() - end.len(), text.len() as int));
        },
        PresetError::Unnamed => {},
    }
}


} // verus!
