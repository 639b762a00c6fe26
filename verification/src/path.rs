//! File system paths as bytes, with the component structure that Unix gives them.

use std::sync::Arc;

use vstd::prelude::*;
use vstd::slice::*;
use vstd::std_specs::cmp::PartialEqSpec;
use vstd::string::*;
use vstd::utf8::*;

use crate::text::slash_of_text;

verus! {

/// The separator of components.
pub const SLASH: u8 = 47;

/// The byte that stands before an extension.
pub const DOT: u8 = 46;

/// A path: any sequence of bytes, shared between the values that hold it.
#[derive(Debug)]
pub struct FilePath {
    bytes: Arc<Vec<u8>>,
}

impl View for FilePath {
    type V = Seq<u8>;

    closed spec fn view(&self) -> Seq<u8> {
        self.bytes@
    }
}

/// A path without the separators and the `.` components at its end.
pub open spec fn trimmed(p: Seq<u8>) -> Seq<u8>
    decreases p.len(),
{
    if p.len() > 1 && (p.last() == SLASH || (p.last() == DOT && p[p.len() - 2] == SLASH)) {
        trimmed(p.drop_last())
    } else {
        p
    }
}

/// Where the bytes behind the last separator start.
pub open spec fn name_start(p: Seq<u8>) -> int
    decreases p.len(),
{
    if p.len() == 0 {
        0
    } else if p.last() == SLASH {
        p.len() as int
    } else {
        name_start(p.drop_last())
    }
}

/// The components of a path: the root as a single separator, a `.` only at the start of a
/// relative path, and every other name between separators.
pub open spec fn components(p: Seq<u8>) -> Seq<Seq<u8>>
    decreases p.len(),
{
    proof {
        trimmed_shape(p);
        name_start_shape(trimmed(p));
        if trimmed(p).len() == 1 && trimmed(p)[0] == SLASH {
            assert(trimmed(p) =~= seq![SLASH]);
        }
    }
    let t = trimmed(p);
    if t.len() == 0 {
        Seq::empty()
    } else if t == seq![SLASH] {
        seq![t]
    } else {
        components(t.take(name_start(t))).push(t.skip(name_start(t)))
    }
}

/// A path stands in `base`, or is `base` itself.
pub open spec fn inside(p: Seq<u8>, base: Seq<u8>) -> bool {
    components(base).is_prefix_of(components(p))
}

/// The last component, where it is a name.
pub open spec fn name_of(p: Seq<u8>) -> Option<Seq<u8>> {
    let c = components(p);
    if c.len() > 0 && c.last() != seq![SLASH] && c.last() != seq![DOT] && c.last() != seq![DOT, DOT] {
        Some(c.last())
    } else {
        None
    }
}

/// The last component as text; empty where it is no name.
pub open spec fn name_text(p: Seq<u8>) -> Seq<char> {
    match name_of(p) {
        Some(name) => shown(name),
        None => Seq::empty(),
    }
}

/// The path without its last component.
pub open spec fn parent_of(p: Seq<u8>) -> Option<Seq<u8>> {
    let t = trimmed(p);
    if t.len() == 0 || t == seq![SLASH] {
        None
    } else {
        Some(trimmed(t.take(name_start(t))))
    }
}

/// Where the last dot of a name stands.
pub open spec fn last_dot(name: Seq<u8>) -> Option<int>
    decreases name.len(),
{
    if name.len() == 0 {
        None
    } else if name.last() == DOT {
        Some(name.len() - 1)
    } else {
        last_dot(name.drop_last())
    }
}

/// A name up to its last dot; all of it where there is none but at its start.
pub open spec fn stem_part(name: Seq<u8>) -> Seq<u8> {
    match last_dot(name) {
        Some(at) => if at > 0 {
            name.take(at)
        } else {
            name
        },
        None => name,
    }
}

/// What stands behind the last dot of a name, unless that dot is its start.
pub open spec fn extension_part(name: Seq<u8>) -> Option<Seq<u8>> {
    match last_dot(name) {
        Some(at) => if at > 0 {
            Some(name.skip(at + 1))
        } else {
            None
        },
        None => None,
    }
}

/// The stem of a path's name.
pub open spec fn stem_of(p: Seq<u8>) -> Option<Seq<u8>> {
    match name_of(p) {
        Some(name) => Some(stem_part(name)),
        None => None,
    }
}

/// The extension of a path's name.
pub open spec fn extension_of(p: Seq<u8>) -> Option<Seq<u8>> {
    match name_of(p) {
        Some(name) => extension_part(name),
        None => None,
    }
}

/// `rest` taken from `base`: `rest` itself where it is absolute.
pub open spec fn joined(base: Seq<u8>, rest: Seq<u8>) -> Seq<u8> {
    if rest.len() > 0 && rest[0] == SLASH {
        rest
    } else if base.len() == 0 || base.last() == SLASH {
        base + rest
    } else {
        base.push(SLASH) + rest
    }
}

/// What trimming leaves: a start of the path that ends in no separator, but for the root.
pub proof fn trimmed_shape(p: Seq<u8>)
    ensures
        trimmed(p).len() <= p.len(),
        trimmed(p) == p.take(trimmed(p).len() as int),
        trimmed(p).len() > 1 ==> trimmed(p).last() != SLASH,
        trimmed(trimmed(p)) == trimmed(p),
        p.len() > 0 ==> trimmed(p).len() > 0,
    decreases p.len(),
{
    if p.len() > 1 && (p.last() == SLASH || (p.last() == DOT && p[p.len() - 2] == SLASH)) {
        trimmed_shape(p.drop_last());
        let n = trimmed(p).len() as int;
        assert(p.drop_last().take(n) =~= p.take(n));
    } else {
        assert(p.take(p.len() as int) =~= p);
    }
}

/// The name behind the last separator holds none.
pub proof fn name_start_shape(p: Seq<u8>)
    ensures
        0 <= name_start(p) <= p.len(),
        name_start(p) == 0 || p[name_start(p) - 1] == SLASH,
        forall|i: int| name_start(p) <= i < p.len() ==> p[i] != SLASH,
        p.len() > 0 && p.last() != SLASH ==> name_start(p) < p.len(),
    decreases p.len(),
{
    if p.len() > 0 && p.last() != SLASH {
        name_start_shape(p.drop_last());
        assert forall|i: int| name_start(p) <= i < p.len() implies p[i] != SLASH by {
            if i < p.len() - 1 {
                assert(p.drop_last()[i] == p[i]);
            }
        }
    }
}

/// A name that can stand as one component behind others.
pub open spec fn plain_name(name: Seq<u8>) -> bool {
    &&& name.len() > 0
    &&& name != seq![DOT]
    &&& forall|i: int| 0 <= i < name.len() ==> #[trigger] name[i] != SLASH
}

/// A plain name behind a separator, or at the start, is the last component.
proof fn components_of_name(head: Seq<u8>, name: Seq<u8>)
    requires
        head.len() == 0 || head.last() == SLASH,
        plain_name(name),
    ensures
        components(head + name) == components(head).push(name),
{
    let p = head + name;
    assert(p.last() == name.last());
    if name.len() == 1 {
        if name[0] == DOT {
            assert(name =~= seq![DOT]);
        }
    } else {
        assert(p[p.len() - 2] == name[name.len() - 2]);
    }
    assert(trimmed(p) == p);
    name_start_shape(p);
    if name_start(p) > head.len() {
        assert(p[name_start(p) - 1] == name[name_start(p) - 1 - head.len()]);
    }
    if name_start(p) < head.len() {
        assert(p[head.len() - 1] == head.last());
    }
    assert(name_start(p) == head.len());
    assert(p.take(head.len() as int) =~= head);
    assert(p.skip(head.len() as int) =~= name);
    if p == seq![SLASH] {
        assert(p.last() == SLASH);
    }
}

/// A plain name taken from a path becomes its last component.
pub proof fn join_adds_component(base: Seq<u8>, name: Seq<u8>)
    requires
        plain_name(name),
    ensures
        components(joined(base, name)) == components(base).push(name),
{
    assert(name[0] != SLASH);
    if base.len() == 0 || base.last() == SLASH {
        components_of_name(base, name);
    } else {
        let head = base.push(SLASH);
        components_of_name(head, name);
        assert(head.drop_last() =~= base);
        assert(trimmed(head) == trimmed(base));
    }
}

/// What is taken from a path by a plain name stands in that path, under that name.
pub proof fn join_stays_inside(base: Seq<u8>, name: Seq<u8>)
    requires
        plain_name(name),
        name != seq![DOT, DOT],
    ensures
        inside(joined(base, name), base),
        name_of(joined(base, name)) == Some(name),
{
    join_adds_component(base, name);
    let c = components(base);
    assert(c.push(name).subrange(0, c.len() as int) =~= c);
    if name == seq![SLASH] {
        assert(name[0] == SLASH);
    }
}

/// Every component but the root is a plain name, or the `.` that a relative path starts with.
pub proof fn components_are_names(p: Seq<u8>)
    ensures
        forall|i: int|
            #![trigger components(p)[i]]
            0 <= i < components(p).len() ==> {
                ||| plain_name(components(p)[i])
                ||| i == 0 && (components(p)[i] == seq![SLASH] || components(p)[i] == seq![DOT])
            },
    decreases p.len(),
{
    let t = trimmed(p);
    trimmed_shape(p);
    name_start_shape(t);
    if t.len() == 1 && t[0] == SLASH {
        assert(t =~= seq![SLASH]);
    }
    if t.len() > 0 && t != seq![SLASH] {
        let start = name_start(t);
        let (head, name) = (t.take(start), t.skip(start));
        components_are_names(head);
        assert forall|i: int| 0 <= i < name.len() implies #[trigger] name[i] != SLASH by {
            assert(name[i] == t[start + i]);
        }
        if name == seq![DOT] && start > 0 {
            assert(name.len() == 1 && name[0] == DOT);
            assert(t.last() == DOT && t[t.len() - 2] == SLASH);
            assert(trimmed(t) != t) by {
                trimmed_shape(t.drop_last());
            }
        }
        if name == seq![DOT] && start == 0 {
            assert(head =~= Seq::<u8>::empty());
            assert(components(head).len() == 0);
        }
        assert(components(p) == components(head).push(name));
    }
}

/// The name of a path is a plain name.
pub proof fn names_are_plain(p: Seq<u8>)
    ensures
        name_of(p) matches Some(name) ==> plain_name(name) && name != seq![DOT, DOT],
{
    components_are_names(p);
    let c = components(p);
    if c.len() > 0 {
        assert(c.last() == c[c.len() - 1]);
    }
}

/// The last dot of a name is one of its bytes.
proof fn last_dot_shape(name: Seq<u8>)
    ensures
        last_dot(name) matches Some(at) ==> 0 <= at < name.len() && name[at] == DOT,
    decreases name.len(),
{
    if name.len() > 0 && name.last() != DOT {
        last_dot_shape(name.drop_last());
    }
}

/// The stem and the extension of a plain name have no separator in them, and the stem is not empty.
pub proof fn parts_are_plain(name: Seq<u8>)
    requires
        plain_name(name),
    ensures
        stem_part(name).len() > 0,
        !stem_part(name).contains(SLASH),
        extension_part(name) matches Some(extension) ==> !extension.contains(SLASH),
{
    last_dot_shape(name);
    if let Some(at) = last_dot(name) {
        if at > 0 {
            let stem = name.take(at);
            let extension = name.skip(at + 1);
            assert forall|i: int| 0 <= i < stem.len() implies stem[i] != SLASH by {
                assert(name[i] != SLASH);
            }
            assert forall|i: int| 0 <= i < extension.len() implies extension[i] != SLASH by {
                assert(name[i + at + 1] != SLASH);
            }
        }
    }
}

/// A name that is text is shown as its stem and, behind a dot, its extension.
pub proof fn shown_in_two_parts(name: Seq<u8>)
    requires
        valid_utf8(name),
    ensures
        valid_utf8(stem_part(name)),
        shown(name) == match extension_part(name) {
            Some(extension) => shown(stem_part(name)) + "."@ + shown(extension),
            None => shown(stem_part(name)),
        },
{
    last_dot_shape(name);
    if let Some(at) = last_dot(name) {
        if at > 0 {
            is_char_boundary_iff_not_is_continuation_byte(name, at);
            valid_utf8_split(name, at);
            decode_utf8_split(name, at);
            let rest = name.subrange(at, name.len() as int);
            assert(rest[0] == DOT);
            assert(46u8 & 0x7f == 46u8) by (bit_vector);
            assert(decode_first_scalar(rest) == 46);
            assert(pop_first_scalar(rest) =~= name.skip(at + 1));
            reveal_strlit(".");
            assert(seq!['.'] =~= "."@);
            assert(decode_utf8(rest) =~= "."@ + decode_utf8(name.skip(at + 1)));
            assert(name.subrange(0, at) =~= name.take(at));
            assert(shown(name) =~= shown(name.take(at)) + "."@ + shown(name.skip(at + 1)));
        }
    }
}

/// An extension behind a dot brings no slash in.
pub proof fn dotted_is_plain(head: Seq<char>, extension: Seq<char>)
    requires
        !head.contains('/'),
        !extension.contains('/'),
    ensures
        !(head + "."@ + extension).contains('/'),
{
    reveal_strlit(".");
    let text = head + "."@ + extension;
    assert forall|i: int| 0 <= i < text.len() implies text[i] != '/' by {
        if i < head.len() {
            assert(text[i] == head[i]);
        } else if i > head.len() {
            assert(text[i] == extension[i - head.len() - 1]);
        }
    }
}

/// A text of two characters or more, without a slash, is a plain name.
pub proof fn text_is_plain(text: Seq<char>)
    requires
        text.len() >= 2,
        !text.contains('/'),
    ensures
        plain_name(encode_utf8(text)),
{
    let name = encode_utf8(text);
    encode_utf8_decode_utf8(text);
    if name.contains(SLASH) {
        slash_of_text(text);
    }
    reveal_strlit(".");
    is_ascii_chars_encode_utf8("."@);
    encode_utf8_decode_utf8("."@);
    assert(encode_utf8("."@) =~= seq![DOT]);
}

/// `Arc::clone`: another owner of the same bytes.
#[verifier::external_body]
fn share(bytes: &Arc<Vec<u8>>) -> (shared: Arc<Vec<u8>>)
    ensures
        shared == *bytes,
{
    Arc::clone(bytes)
}

/// `String::from_utf8_lossy` on bytes that are not UTF-8.
pub uninterp spec fn replaced_text(bytes: Seq<u8>) -> Seq<char>;

/// Bytes shown as text: read as UTF-8 where they are UTF-8.
pub open spec fn shown(bytes: Seq<u8>) -> Seq<char> {
    if valid_utf8(bytes) {
        decode_utf8(bytes)
    } else {
        replaced_text(bytes)
    }
}

/// `String::from_utf8_lossy`: the text that UTF-8 bytes hold. Bytes that are not UTF-8 give a
/// text too, in which the replacement character stands for what is not UTF-8: so no separator comes
/// in that is not a byte of its own, and nothing but no bytes at all gives an empty text. Where the
/// replacement characters stand is not stated.
#[verifier::external_body]
pub(crate) fn lossy_text(bytes: &[u8]) -> (text: String)
    ensures
        text@ == (if valid_utf8(bytes@) {
            decode_utf8(bytes@)
        } else {
            replaced_text(bytes@)
        }),
        text@.contains('/') ==> bytes@.contains(SLASH),
        text@.len() == 0 ==> bytes@.len() == 0,
{
    String::from_utf8_lossy(bytes).into_owned()
}

/// `std::str::from_utf8`: succeeds on UTF-8 alone.
#[verifier::external_body]
pub(crate) fn is_utf8(bytes: &[u8]) -> (valid: bool)
    ensures
        valid == valid_utf8(bytes@),
{
    std::str::from_utf8(bytes).is_ok()
}

/// Whether two byte sequences are the same.
pub fn same_bytes(a: &[u8], b: &[u8]) -> (same: bool)
    ensures
        same == (a@ == b@),
{
    if a.len() != b.len() {
        return false;
    }
    let len: usize = a.len();
    for i in 0..len
        invariant
            len == a@.len(),
            len == b@.len(),
            forall|j: int| 0 <= j < i ==> a@[j] == b@[j],
    {
        if a[i] != b[i] {
            return false;
        }
    }
    assert(a@ =~= b@);
    true
}

/// Where the trimmed start of `p[..end]` ends.
fn trimmed_end(p: &[u8], end: usize) -> (cut: usize)
    requires
        end <= p@.len(),
    ensures
        cut <= end,
        p@.take(cut as int) == trimmed(p@.take(end as int)),
{
    let mut cut: usize = end;
    while cut > 1 && (p[cut - 1] == SLASH || (p[cut - 1] == DOT && p[cut - 2] == SLASH))
        invariant
            cut <= end <= p@.len(),
            trimmed(p@.take(cut as int)) == trimmed(p@.take(end as int)),
        decreases cut,
    {
        assert(p@.take(cut as int).drop_last() =~= p@.take(cut - 1));
        cut = cut - 1;
    }
    cut
}

/// Where the bytes behind the last separator of `p[..end]` start.
fn name_start_in(p: &[u8], end: usize) -> (start: usize)
    requires
        end <= p@.len(),
    ensures
        start <= end,
        start == name_start(p@.take(end as int)),
{
    let mut start: usize = end;
    while start > 0 && p[start - 1] != SLASH
        invariant
            start <= end <= p@.len(),
            name_start(p@.take(start as int)) == name_start(p@.take(end as int)),
        decreases start,
    {
        assert(p@.take(start as int).drop_last() =~= p@.take(start - 1));
        start = start - 1;
    }
    start
}

/// The bytes that each element holds.
pub open spec fn views(v: Seq<Vec<u8>>) -> Seq<Seq<u8>> {
    v.map_values(|b: Vec<u8>| b@)
}

/// A copy of `p[from..to]`.
pub fn copy_range(p: &[u8], from: usize, to: usize) -> (copy: Vec<u8>)
    requires
        from <= to <= p@.len(),
    ensures
        copy@ == p@.subrange(from as int, to as int),
{
    slice_to_vec(slice_subrange(p, from, to))
}

/// The components of `p[..end]`.
fn components_in(p: &[u8], end: usize) -> (list: Vec<Vec<u8>>)
    requires
        end <= p@.len(),
    ensures
        views(list@) == components(p@.take(end as int)),
    decreases end,
{
    let cut: usize = trimmed_end(p, end);
    let ghost t = p@.take(cut as int);
    proof {
        trimmed_shape(p@.take(end as int));
        name_start_shape(t);
    }
    if cut == 0 {
        let list: Vec<Vec<u8>> = Vec::new();
        assert(views(list@) =~= components(p@.take(end as int)));
        list
    } else if cut == 1 && p[0] == SLASH {
        assert(t =~= seq![SLASH]);
        let mut list: Vec<Vec<u8>> = Vec::new();
        let root: Vec<u8> = copy_range(p, 0, 1);
        assert(root@ =~= t);
        list.push(root);
        assert(views(list@) =~= components(p@.take(end as int)));
        list
    } else {
        let start: usize = name_start_in(p, cut);
        if cut == 1 {
            assert(t[0] != SLASH);
        }
        assert(t != seq![SLASH]) by {
            if t == seq![SLASH] {
                assert(t[0] == SLASH);
            }
        }
        let mut list: Vec<Vec<u8>> = components_in(p, start);
        let ghost before = list@;
        let name: Vec<u8> = copy_range(p, start, cut);
        assert(t.take(start as int) =~= p@.take(start as int));
        assert(name@ =~= t.skip(start as int));
        list.push(name);
        assert(views(list@) =~= views(before).push(name@));
        list
    }
}

/// Whether the elements of `a` are the first elements of `b`.
fn starts_list(a: &Vec<Vec<u8>>, b: &Vec<Vec<u8>>) -> (starts: bool)
    ensures
        starts == views(a@).is_prefix_of(views(b@)),
{
    if a.len() > b.len() {
        return false;
    }
    let len: usize = a.len();
    for i in 0..len
        invariant
            len == a@.len(),
            len <= b@.len(),
            forall|j: int| 0 <= j < i ==> views(a@)[j] == views(b@)[j],
    {
        if !same_bytes(a[i].as_slice(), b[i].as_slice()) {
            assert(views(a@)[i as int] != views(b@)[i as int]);
            assert(views(a@).len() == a@.len());
            assert(!views(a@).is_prefix_of(views(b@)));
            return false;
        }
        assert(views(a@)[i as int] == views(b@)[i as int]);
    }
    assert(views(b@).subrange(0, views(a@).len() as int) =~= views(a@));
    true
}

/// Where the last dot of a name stands.
fn last_dot_in(name: &[u8]) -> (at: Option<usize>)
    ensures
        match at {
            Some(i) => last_dot(name@) == Some(i as int) && i < name@.len(),
            None => last_dot(name@) is None,
        },
{
    let mut end: usize = name.len();
    assert(name@.take(end as int) =~= name@);
    while end > 0
        invariant
            end <= name@.len(),
            last_dot(name@.take(end as int)) == last_dot(name@),
        decreases end,
    {
        assert(name@.take(end as int).drop_last() =~= name@.take(end - 1));
        if name[end - 1] == DOT {
            return Some(end - 1);
        }
        end = end - 1;
    }
    None
}

impl FilePath {
    /// The path with these bytes.
    pub fn from_bytes(bytes: Vec<u8>) -> (path: FilePath)
        ensures
            path@ == bytes@,
    {
        FilePath { bytes: Arc::new(bytes) }
    }

    /// The path with the bytes of a text.
    pub fn from_text(text: &str) -> (path: FilePath)
        ensures
            path@ == encode_utf8(text@),
    {
        FilePath::from_bytes(text.as_bytes_vec())
    }

    /// The bytes of the path.
    pub fn as_bytes(&self) -> (bytes: &[u8])
        ensures
            bytes@ == self@,
    {
        self.bytes.as_slice()
    }

    /// The path as text, for people to read.
    pub fn display(&self) -> (text: String)
        ensures
            text@ == shown(self@),
    {
        lossy_text(self.as_bytes())
    }

    /// The components of the path.
    fn component_list(&self) -> (list: Vec<Vec<u8>>)
        ensures
            views(list@) == components(self@),
    {
        let bytes: &[u8] = self.as_bytes();
        assert(bytes@.take(bytes@.len() as int) =~= bytes@);
        components_in(bytes, bytes.len())
    }

    /// Whether two paths have the same components.
    pub fn same_path(&self, other: &FilePath) -> (same: bool)
        ensures
            same == (components(self@) == components(other@)),
    {
        let a: Vec<Vec<u8>> = self.component_list();
        let b: Vec<Vec<u8>> = other.component_list();
        let same: bool = a.len() == b.len() && starts_list(&a, &b);
        assert(same == (views(a@) == views(b@))) by {
            if a@.len() == b@.len() {
                assert(views(b@).subrange(0, views(a@).len() as int) =~= views(b@));
            }
            if views(a@) == views(b@) {
                assert(views(a@).len() == views(b@).len());
                assert(views(b@).subrange(0, views(a@).len() as int) =~= views(a@));
            }
        }
        same
    }

    /// Whether the path stands in `base`, or is `base` itself.
    pub fn starts_with(&self, base: &FilePath) -> (within: bool)
        ensures
            within == inside(self@, base@),
    {
        starts_list(&base.component_list(), &self.component_list())
    }

    /// The last component, where it is a name.
    pub fn file_name(&self) -> (name: Option<Vec<u8>>)
        ensures
            match name {
                Some(n) => name_of(self@) == Some(n@),
                None => name_of(self@) is None,
            },
    {
        let mut list: Vec<Vec<u8>> = self.component_list();
        let ghost all = list@;
        match list.pop() {
            None => None,
            Some(last) => {
                assert(components(self@).last() == last@) by {
                    assert(views(all).last() == all.last()@);
                }
                let special: bool = (last.len() == 1 && (last[0] == SLASH || last[0] == DOT)) || (
                last.len() == 2 && last[0] == DOT && last[1] == DOT);
                proof {
                    if special {
                        assert(last@ =~= seq![SLASH] || last@ =~= seq![DOT] || last@ =~= seq![
                            DOT,
                            DOT,
                        ]);
                    } else {
                        if last@ == seq![SLASH] {
                            assert(last@[0] == SLASH && last@.len() == 1);
                        }
                        if last@ == seq![DOT] {
                            assert(last@[0] == DOT && last@.len() == 1);
                        }
                        if last@ == seq![DOT, DOT] {
                            assert(last@[0] == DOT && last@[1] == DOT && last@.len() == 2);
                        }
                    }
                }
                if special {
                    None
                } else {
                    Some(last)
                }
            },
        }
    }

    /// The last component as text, for people to read.
    pub fn display_name(&self) -> (text: String)
        ensures
            text@ == name_text(self@),
    {
        match self.file_name() {
            Some(name) => lossy_text(name.as_slice()),
            None => String::new(),
        }
    }

    /// The name up to its last dot.
    pub fn file_stem(&self) -> (stem: Option<Vec<u8>>)
        ensures
            match stem {
                Some(s) => stem_of(self@) == Some(s@),
                None => stem_of(self@) is None,
            },
    {
        match self.file_name() {
            None => None,
            Some(name) => match last_dot_in(name.as_slice()) {
                Some(at) => if at > 0 {
                    let stem: Vec<u8> = copy_range(name.as_slice(), 0, at);
                    assert(stem@ =~= name@.take(at as int));
                    Some(stem)
                } else {
                    Some(name)
                },
                None => Some(name),
            },
        }
    }

    /// What stands behind the last dot of the name.
    pub fn extension(&self) -> (extension: Option<Vec<u8>>)
        ensures
            match extension {
                Some(e) => extension_of(self@) == Some(e@),
                None => extension_of(self@) is None,
            },
    {
        match self.file_name() {
            None => None,
            Some(name) => match last_dot_in(name.as_slice()) {
                Some(at) => if at > 0 {
                    let end: usize = name.len();
                    let extension: Vec<u8> = copy_range(name.as_slice(), at + 1, end);
                    assert(extension@ =~= name@.skip(at + 1));
                    Some(extension)
                } else {
                    None
                },
                None => None,
            },
        }
    }

    /// The path without its last component.
    pub fn parent(&self) -> (parent: Option<FilePath>)
        ensures
            match parent {
                Some(p) => parent_of(self@) == Some(p@),
                None => parent_of(self@) is None,
            },
    {
        let p: &[u8] = self.as_bytes();
        let cut: usize = trimmed_end(p, p.len());
        let ghost t = p@.take(cut as int);
        assert(p@.take(p@.len() as int) =~= p@);
        if cut == 0 {
            return None;
        }
        if cut == 1 && p[0] == SLASH {
            assert(t =~= seq![SLASH]);
            return None;
        }
        assert(t != seq![SLASH]) by {
            if t == seq![SLASH] {
                assert(t[0] == SLASH && t.len() == 1);
            }
        }
        let start: usize = name_start_in(p, cut);
        let end: usize = trimmed_end(p, start);
        assert(t.take(start as int) =~= p@.take(start as int));
        let parent: Vec<u8> = copy_range(p, 0, end);
        assert(parent@ =~= p@.take(end as int));
        Some(FilePath::from_bytes(parent))
    }

    /// `rest` taken from this path.
    pub fn join(&self, rest: &[u8]) -> (path: FilePath)
        ensures
            path@ == joined(self@, rest@),
    {
        if rest.len() > 0 && rest[0] == SLASH {
            return FilePath::from_bytes(slice_to_vec(rest));
        }
        let base: &[u8] = self.as_bytes();
        let mut bytes: Vec<u8> = slice_to_vec(base);
        if base.len() > 0 && base[base.len() - 1] != SLASH {
            bytes.push(SLASH);
        }
        bytes.append(&mut slice_to_vec(rest));
        FilePath::from_bytes(bytes)
    }

    /// A text taken from this path.
    pub fn join_text(&self, rest: &str) -> (path: FilePath)
        ensures
            path@ == joined(self@, encode_utf8(rest@)),
    {
        self.join(rest.as_bytes())
    }
}

impl Clone for FilePath {
    fn clone(&self) -> (copy: Self)
        ensures
            copy == *self,
    {
        FilePath { bytes: share(&self.bytes) }
    }
}

impl PartialEq for FilePath {
    fn eq(&self, other: &Self) -> (same: bool) {
        self.same_path(other)
    }
}

impl vstd::std_specs::cmp::PartialEqSpecImpl for FilePath {
    open spec fn obeys_eq_spec() -> bool {
        true
    }

    open spec fn eq_spec(&self, other: &Self) -> bool {
        components(self@) == components(other@)
    }
}

/// A path stands in another one where its components are those of the other, and then any number of
/// its own.
pub proof fn inside_goes_on(p: Seq<u8>, base: Seq<u8>)
    ensures
        inside(p, base) <==> exists|tail: Seq<Seq<u8>>| components(p) == #[trigger] (components(base)
            + tail),
        inside(p, base) <==> components(p).len() >= components(base).len() && components(p).take(
            components(base).len() as int,
        ) == components(base),
{
    let (own, outer) = (components(p), components(base));
    if inside(p, base) {
        let tail = own.skip(outer.len() as int);
        assert(own =~= outer + tail);
        assert(own.take(outer.len() as int) =~= outer);
    }
    if exists|tail: Seq<Seq<u8>>| own == #[trigger] (outer + tail) {
        let tail = choose|tail: Seq<Seq<u8>>| own == #[trigger] (outer + tail);
        assert(outer =~= own.subrange(0, outer.len() as int));
    }
    if own.len() >= outer.len() && own.take(outer.len() as int) == outer {
        assert(outer =~= own.subrange(0, outer.len() as int));
    }
}

/// Being in a path is kept at every depth, and two entries of one directory are not in each other.
pub proof fn inside_at_every_depth(p: Seq<u8>, base: Seq<u8>, name: Seq<u8>, other: Seq<u8>)
    requires
        plain_name(name),
        plain_name(other),
    ensures
        inside(p, p),
        inside(p, base) ==> inside(joined(p, name), base),
        name != other ==> !inside(joined(p, name), joined(p, other)),
        !inside(p, joined(p, name)),
{
    join_adds_component(p, name);
    join_adds_component(p, other);
    inside_goes_on(p, p);
    inside_goes_on(p, base);
    inside_goes_on(joined(p, name), base);
    inside_goes_on(joined(p, name), joined(p, other));
    inside_goes_on(p, joined(p, name));
    let c = components(p);
    let outer = components(base);
    assert(c.take(c.len() as int) =~= c);
    if inside(p, base) {
        assert(c.push(name).take(outer.len() as int) =~= c.take(outer.len() as int));
    }
    if name != other {
        assert(c.push(name).take(c.len() as int + 1)[c.len() as int] == name);
        assert(c.push(other)[c.len() as int] == other);
    }
}

/// Whatever stands in a path that stands in another one stands in that one too, and two paths that
/// stand in each other are the same.
pub proof fn inside_is_an_order(a: Seq<u8>, b: Seq<u8>, c: Seq<u8>)
    ensures
        inside(a, b) && inside(b, c) ==> inside(a, c),
        inside(a, b) && inside(b, a) ==> components(a) == components(b),
{
    inside_goes_on(a, b);
    inside_goes_on(b, c);
    inside_goes_on(a, c);
    inside_goes_on(b, a);
    let (x, y, z) = (components(a), components(b), components(c));
    if inside(a, b) && inside(b, c) {
        assert(x.take(z.len() as int) =~= x.take(y.len() as int).take(z.len() as int));
    }
    if inside(a, b) && inside(b, a) {
        assert(x.take(y.len() as int) =~= x);
    }
}

/// The components of the shortest paths.
pub proof fn shortest_components(name: Seq<u8>)
    requires
        plain_name(name),
    ensures
        components(Seq::empty()) == Seq::<Seq<u8>>::empty(),
        components(seq![SLASH]) == seq![seq![SLASH]],
        components(seq![DOT]) == seq![seq![DOT]],
        components(name) == seq![name],
        components(seq![SLASH] + name) == seq![seq![SLASH], name],
{
    assert(trimmed(Seq::<u8>::empty()) =~= Seq::<u8>::empty());
    assert(components(Seq::empty()) =~= Seq::<Seq<u8>>::empty());
    assert(components(seq![SLASH]) =~= seq![seq![SLASH]]);
    join_adds_component(Seq::empty(), name);
    assert(Seq::<u8>::empty() + name =~= name);
    assert(components(name) =~= seq![name]);
    join_adds_component(seq![SLASH], name);
    assert(components(seq![SLASH] + name) =~= seq![seq![SLASH], name]);
    let dot = seq![DOT];
    assert(trimmed(dot) == dot);
    assert(dot.drop_last() =~= Seq::<u8>::empty());
    assert(name_start(dot.drop_last()) == 0);
    assert(name_start(dot) == 0);
    assert(dot.take(0) =~= Seq::<u8>::empty());
    assert(dot.skip(0) =~= dot);
    assert(dot != seq![SLASH]) by {
        assert(dot[0] == DOT);
    }
    assert(components(dot) =~= seq![dot]);
}

/// A separator at the end of a path, and a `.` behind it, do not change its components.
pub proof fn trailing_separators(p: Seq<u8>)
    requires
        p.len() > 0,
    ensures
        components(p.push(SLASH)) == components(p),
        components(p.push(SLASH).push(DOT)) == components(p),
{
    let once = p.push(SLASH);
    let twice = once.push(DOT);
    assert(once.drop_last() =~= p);
    assert(twice.drop_last() =~= once);
    assert(trimmed(once) == trimmed(p));
    assert(trimmed(twice) == trimmed(once));
}

/// The parent of a path has all of its components but the last; the root and the empty path have no
/// parent.
pub proof fn parent_has_one_less(p: Seq<u8>)
    ensures
        parent_of(p) is None <==> components(p).len() == 0 || components(p) == seq![seq![SLASH]],
        parent_of(p) matches Some(parent) ==> components(parent) == components(p).drop_last()
            && parent.is_prefix_of(p),
{
    let t = trimmed(p);
    trimmed_shape(p);
    name_start_shape(t);
    if t.len() > 0 && t != seq![SLASH] {
        let head = t.take(name_start(t));
        let parent = trimmed(head);
        trimmed_shape(head);
        assert(components(parent) == components(head));
        let c = components(p);
        assert(c == components(head).push(t.skip(name_start(t))));
        assert(c.drop_last() =~= components(head));
        assert(parent =~= p.subrange(0, parent.len() as int));
        if c == seq![seq![SLASH]] {
            assert(c[0] == seq![SLASH]);
            let name = t.skip(name_start(t));
            assert(c.last() == name);
            assert(name[0] == SLASH);
            assert(t[name_start(t)] == SLASH);
        }
    }
}

/// A name is its stem and, behind its last dot, its extension. A dot at its start does not count.
pub proof fn name_in_two_parts(name: Seq<u8>)
    requires
        name.len() > 0,
    ensures
        match extension_part(name) {
            Some(extension) => {
                &&& name == stem_part(name) + seq![DOT] + extension
                &&& stem_part(name).len() > 0
                &&& !extension.contains(DOT)
            },
            None => {
                &&& stem_part(name) == name
                &&& forall|i: int| 0 < i < name.len() ==> #[trigger] name[i] != DOT
            },
        },
{
    last_dot_shape(name);
    last_dot_is_last(name);
    if let Some(at) = last_dot(name) {
        if at > 0 {
            assert(name =~= name.take(at) + seq![DOT] + name.skip(at + 1));
            let extension = name.skip(at + 1);
            assert forall|i: int| 0 <= i < extension.len() implies extension[i] != DOT by {
                assert(name[at + 1 + i] != DOT);
            }
        }
    }
}

/// Behind the last dot of a name there is none.
proof fn last_dot_is_last(name: Seq<u8>)
    ensures
        match last_dot(name) {
            Some(at) => forall|i: int| at < i < name.len() ==> #[trigger] name[i] != DOT,
            None => forall|i: int| 0 <= i < name.len() ==> #[trigger] name[i] != DOT,
        },
    decreases name.len(),
{
    if name.len() > 0 && name.last() != DOT {
        let less = name.drop_last();
        last_dot_is_last(less);
        last_dot_shape(less);
        let from = match last_dot(less) {
            Some(at) => at + 1,
            None => 0,
        };
        assert forall|i: int| from <= i < name.len() implies #[trigger] name[i] != DOT by {
            if i < less.len() {
                assert(less[i] == name[i]);
            }
        }
    }
}

/// A stem, a dot and an extension without a dot give a name with just these parts.
pub proof fn parts_come_back(stem: Seq<u8>, extension: Seq<u8>)
    requires
        stem.len() > 0,
        !extension.contains(DOT),
    ensures
        stem_part(stem + seq![DOT] + extension) == stem,
        extension_part(stem + seq![DOT] + extension) == Some(extension),
{
    let name = stem + seq![DOT] + extension;
    last_dot_shape(name);
    last_dot_is_last(name);
    assert(name[stem.len() as int] == DOT);
    match last_dot(name) {
        Some(at) => {
            if at > stem.len() {
                assert(extension[at - stem.len() - 1] == name[at]);
                assert(extension.contains(DOT));
            }
            assert(at == stem.len());
            assert(name.take(at) =~= stem);
            assert(name.skip(at + 1) =~= extension);
        },
        None => {},
    }
}

/// The name, the stem and the extension of a path are those of its last component.
pub proof fn name_is_the_last_component(p: Seq<u8>)
    ensures
        name_of(p) matches Some(name) ==> components(p).len() > 0 && components(p).last() == name,
        name_of(p) is None ==> components(p).len() == 0 || components(p).last() == seq![SLASH]
            || components(p).last() == seq![DOT] || components(p).last() == seq![DOT, DOT],
        match name_of(p) {
            Some(name) => stem_of(p) == Some(stem_part(name)) && extension_of(p)
                == extension_part(name) && name_text(p) == shown(name),
            None => stem_of(p) is None && extension_of(p) is None && name_text(p).len() == 0,
        },
{
}

/// What is taken from a path starts with it and ends with what is taken, with one separator between
/// them where there is none; what is absolute stays as it is.
pub proof fn joined_holds_both(base: Seq<u8>, rest: Seq<u8>)
    ensures
        rest.is_suffix_of(joined(base, rest)),
        rest.len() > 0 && rest[0] == SLASH ==> joined(base, rest) == rest,
        !(rest.len() > 0 && rest[0] == SLASH) ==> {
            let path = joined(base, rest);
            &&& base.is_prefix_of(path)
            &&& path.len() <= base.len() + 1 + rest.len()
            &&& base.len() == 0 || base.last() == SLASH ==> path == base + rest
            &&& base.len() > 0 && base.last() != SLASH ==> path.len() == base.len() + 1 + rest.len()
                && path[base.len() as int] == SLASH
        },
{
    let path = joined(base, rest);
    assert(rest =~= path.subrange(path.len() - rest.len(), path.len() as int));
    if !(rest.len() > 0 && rest[0] == SLASH) {
        assert(base =~= path.subrange(0, base.len() as int));
    }
}

/// Bytes that are UTF-8 are shown as the text that has these bytes.
pub proof fn shown_reads_back(bytes: Seq<u8>, text: Seq<char>)
    ensures
        valid_utf8(bytes) ==> encode_utf8(shown(bytes)) == bytes,
        shown(encode_utf8(text)) == text,
{
    if valid_utf8(bytes) {
        decode_utf8_encode_utf8(bytes);
    }
    encode_utf8_valid_utf8(text);
    encode_utf8_decode_utf8(text);
}

/// Two paths are equal exactly where each stands in the other. Separators at the end make no difference.
pub proof fn equal_paths(a: FilePath, b: FilePath)
    ensures
        a.eq_spec(&b) <==> inside(a@, b@) && inside(b@, a@),
        a@.len() > 0 && b@ == a@.push(SLASH) ==> a.eq_spec(&b),
{
    inside_is_an_order(a@, b@, a@);
    if a@.len() > 0 {
        trailing_separators(a@);
    }
}


} // verus!
