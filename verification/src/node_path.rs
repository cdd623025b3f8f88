//! A pre-parsed scene-tree path: an ordered sequence of node names followed
//! by an ordered sequence of property subnames.
//!
//! The textual form keeps the source text up to its first embedded NUL
//! character; anything after a NUL is ignored, so two texts that differ only
//! past a NUL denote the same path. Names are the non-empty slash-separated
//! segments before the first colon; subnames are the non-empty
//! colon-separated segments after it.

use vstd::prelude::*;
use vstd::std_specs::cmp::PartialEqSpec;

use crate::strings::StringName;
use crate::text::{
    join_sep, lemma_join_chars, lemma_join_push, lemma_prefix_chars, lemma_prefix_suffix_at,
    lemma_split_acc_bound, lemma_split_acc_segments, lemma_split_join, lemma_suffix_chars,
    lemma_trunc_nul_at, lemma_trunc_nul_no_nul, prefix_before, seg_ok, split_acc, split_ne,
    suffix_after, trunc_nul,
};

verus! {

/// Name components of a path text: the non-empty slash-separated segments
/// before the first colon.
pub open spec fn parse_names(t: Seq<char>) -> Seq<Seq<char>> {
    split_ne(prefix_before(t, ':'), '/')
}

/// Subname components of a path text: the non-empty colon-separated segments
/// after the first colon.
pub open spec fn parse_subnames(t: Seq<char>) -> Seq<Seq<char>> {
    split_ne(suffix_after(t, ':'), ':')
}

/// One step of the 32-bit string hash: multiply by 33, add the character.
pub open spec fn hash_acc(s: Seq<char>, h: int) -> int
    decreases s.len(),
{
    if s.len() == 0 {
        h
    } else {
        hash_acc(s.subrange(1, s.len() as int), (h * 33 + (s[0] as u32)) % 0x1_0000_0000)
    }
}

/// 32-bit hash of a path's canonical text.
pub open spec fn hash_spec(s: Seq<char>) -> int {
    hash_acc(s, 5381)
}

/// Index of the first occurrence of `c` in `s`, or the length if absent.
pub fn find_char(s: &str, c: char) -> (i: usize)
    ensures
        i <= s@.len(),
        forall|k: int| 0 <= k < i ==> s@[k] != c,
        i < s@.len() ==> s@[i as int] == c,
{
    let len = s.unicode_len();
    let mut i: usize = 0;
    while i < len
        invariant
            i <= len,
            len == s@.len(),
            forall|k: int| 0 <= k < i ==> s@[k] != c,
        decreases len - i,
    {
        if s.get_char(i) == c {
            return i;
        }
        i = i + 1;
    }
    i
}

/// The non-empty segments of `s` split at `sep`, in order.
pub fn split_str(s: &str, sep: char) -> (v: Vec<String>)
    ensures
        v.deep_view() == split_ne(s@, sep),
{
    let len = s.unicode_len();
    let mut out: Vec<String> = Vec::new();
    let mut seg_start: usize = 0;
    let mut i: usize = 0;
    proof {
        assert(s@.subrange(0, len as int) =~= s@);
        assert(s@.subrange(0, 0) =~= Seq::<char>::empty());
    }
    while i < len
        invariant
            seg_start <= i <= len,
            len == s@.len(),
            forall|k: int| seg_start <= k < i ==> s@[k] != sep,
            split_ne(s@, sep) == out.deep_view() + split_acc(
                s@.subrange(i as int, len as int),
                sep,
                s@.subrange(seg_start as int, i as int),
            ),
        decreases len - i,
    {
        let ghost pre = s@.subrange(i as int, len as int);
        let ghost cur = s@.subrange(seg_start as int, i as int);
        let c = s.get_char(i);
        if c == sep {
            let ghost old_dv = out.deep_view();
            if i > seg_start {
                let piece = s.substring_char(seg_start, i);
                out.push(piece.to_owned());
                proof {
                    assert(out.deep_view() =~= old_dv.push(cur));
                }
            }
            proof {
                assert(pre.subrange(1, pre.len() as int) =~= s@.subrange(
                    i + 1,
                    len as int,
                ));
                assert(out.deep_view() + split_acc(
                    s@.subrange(i + 1, len as int),
                    sep,
                    Seq::<char>::empty(),
                ) =~= old_dv + split_acc(pre, sep, cur));
                assert(s@.subrange(i + 1, i + 1) =~= Seq::<char>::empty());
            }
            seg_start = i + 1;
        } else {
            proof {
                assert(pre.subrange(1, pre.len() as int) =~= s@.subrange(
                    i + 1,
                    len as int,
                ));
                assert(cur.push(s@[i as int]) =~= s@.subrange(seg_start as int, i + 1));
                assert(split_acc(pre, sep, cur) == split_acc(
                    s@.subrange(i + 1, len as int),
                    sep,
                    s@.subrange(seg_start as int, i + 1),
                ));
            }
        }
        i = i + 1;
    }
    let ghost tail_cur = s@.subrange(seg_start as int, len as int);
    proof {
        assert(s@.subrange(len as int, len as int) =~= Seq::<char>::empty());
    }
    if len > seg_start {
        let ghost old_dv = out.deep_view();
        let piece = s.substring_char(seg_start, len);
        out.push(piece.to_owned());
        proof {
            assert(out.deep_view() =~= old_dv.push(tail_cur));
            assert(out.deep_view() =~= old_dv + split_acc(
                Seq::<char>::empty(),
                sep,
                tail_cur,
            ));
        }
    } else {
        proof {
            assert(out.deep_view() =~= out.deep_view() + split_acc(
                Seq::<char>::empty(),
                sep,
                tail_cur,
            ));
        }
    }
    out
}

/// A parsed path: canonical text plus its name and subname components.
#[derive(Debug)]
pub struct NodePath {
    text: String,
    names: Vec<String>,
    subnames: Vec<String>,
}

impl View for NodePath {
    type V = Seq<char>;

    /// The canonical text of the path.
    closed spec fn view(&self) -> Seq<char> {
        self.text@
    }
}

impl NodePath {
    /// The name components, as character sequences.
    pub closed spec fn names_view(self) -> Seq<Seq<char>> {
        self.names.deep_view()
    }

    /// The subname components, as character sequences.
    pub closed spec fn subnames_view(self) -> Seq<Seq<char>> {
        self.subnames.deep_view()
    }

    /// Well-formed: the canonical text holds no NUL, and the stored
    /// components are exactly what parsing the text yields.
    pub open spec fn wf(self) -> bool {
        &&& forall|k: int| 0 <= k < self@.len() ==> self@[k] != '\0'
        &&& self.names_view() == parse_names(self@)
        &&& self.subnames_view() == parse_subnames(self@)
    }

    /// Parses a path from text. The text is truncated at its first embedded
    /// NUL character; the rest is ignored.
    pub fn from(s: &str) -> (r: NodePath)
        ensures
            r.wf(),
            r@ == trunc_nul(s@),
    {
        let n = find_char(s, '\0');
        let t = s.substring_char(0, n);
        proof {
            lemma_trunc_nul_at(s@, n as int);
            lemma_trunc_nul_no_nul(s@);
        }
        let tlen = t.unicode_len();
        let j = find_char(t, ':');
        let pre = t.substring_char(0, j);
        let post: &str = if j < tlen {
            t.substring_char(j + 1, tlen)
        } else {
            ""
        };
        proof {
            lemma_prefix_suffix_at(t@, ':', j as int);
            if j == tlen {
                reveal_strlit("");
                assert(post@ =~= suffix_after(t@, ':'));
            }
        }
        let names = split_str(pre, '/');
        let subnames = split_str(post, ':');
        NodePath { text: t.to_owned(), names, subnames }
    }

    /// Parses a path from owned text, as `from` does.
    pub fn from_owned(s: String) -> (r: NodePath)
        ensures
            r.wf(),
            r@ == trunc_nul(s@),
    {
        NodePath::from(s.as_str())
    }

    /// Builds a path from a general-purpose string, by converting to the
    /// canonical text and parsing it.
    pub fn from_gstring(s: &crate::strings::GString) -> (r: NodePath)
        ensures
            r.wf(),
            r@ == trunc_nul(s@),
    {
        NodePath::from(s.as_str())
    }

    /// Builds a path from an interned name, by converting to the canonical
    /// text and parsing it.
    pub fn from_string_name(s: &StringName) -> (r: NodePath)
        ensures
            r.wf(),
            r@ == trunc_nul(s@),
    {
        NodePath::from(s.as_str())
    }

    /// Number of node names in the path. Property subnames are not included.
    ///
    /// The count is returned narrowed to 32 bits, which the caller must know
    /// to be wide enough; this mirrors the engine's count contract.
    pub fn get_name_count(&self) -> (n: u32)
        requires
            self.names_view().len() <= u32::MAX,
        ensures
            n == self.names_view().len(),
    {
        self.names.len() as u32
    }

    /// Number of property subnames in the path.
    pub fn get_subname_count(&self) -> (n: u32)
        requires
            self.subnames_view().len() <= u32::MAX,
        ensures
            n == self.subnames_view().len(),
    {
        self.subnames.len() as u32
    }

    /// The node name at `idx`, counted from 0, or absent when `idx` is out
    /// of bounds — which also covers the empty path.
    pub fn get_name(&self, idx: u32) -> (r: Option<StringName>)
        ensures
            match r {
                Some(name) => idx < self.names_view().len() && name@ == self.names_view()[idx as int],
                None => idx >= self.names_view().len(),
            },
    {
        if (idx as usize) < self.names.len() {
            let name = StringName::from_str(self.names[idx as usize].as_str());
            Some(name)
        } else {
            None
        }
    }

    /// The property subname at `idx`, counted from 0, or absent when `idx`
    /// is out of bounds.
    pub fn get_subname(&self, idx: u32) -> (r: Option<StringName>)
        ensures
            match r {
                Some(name) => idx < self.subnames_view().len() && name@ == self.subnames_view()[idx as int],
                None => idx >= self.subnames_view().len(),
            },
    {
        if (idx as usize) < self.subnames.len() {
            let name = StringName::from_str(self.subnames[idx as usize].as_str());
            Some(name)
        } else {
            None
        }
    }

    /// 32-bit hash of the canonical text. Equal texts hash identically.
    pub fn hash(&self) -> (h: u32)
        ensures
            h == hash_spec(self@),
    {
        let s = self.text.as_str();
        let len = s.unicode_len();
        let mut h: u32 = 5381;
        let mut i: usize = 0;
        proof {
            assert(s@.subrange(0, len as int) =~= s@);
        }
        while i < len
            invariant
                i <= len,
                len == s@.len(),
                s@ == self@,
                hash_spec(self@) == hash_acc(s@.subrange(i as int, len as int), h as int),
            decreases len - i,
        {
            let ghost pre = s@.subrange(i as int, len as int);
            let c = s.get_char(i);
            let prod: u64 = (h as u64) * 33 + ((c as u32) as u64);
            h = (prod % 4294967296u64) as u32;
            proof {
                assert(pre.subrange(1, pre.len() as int) =~= s@.subrange(i + 1, len as int));
                assert(h as int == ((prod as int) % 0x1_0000_0000));
            }
            i = i + 1;
        }
        h
    }

    /// The canonical text as a general-purpose string value.
    pub fn to_gstring(&self) -> (r: crate::strings::GString)
        ensures
            r@ == self@,
    {
        crate::strings::GString::from_str(self.text.as_str())
    }

    /// The canonical text as an interned name.
    pub fn to_string_name(&self) -> (r: StringName)
        ensures
            r@ == self@,
    {
        StringName::from_str(self.text.as_str())
    }

    /// The canonical text, as the display form of the path.
    pub fn to_display_string(&self) -> (r: String)
        ensures
            r@ == self@,
    {
        self.text.clone()
    }

    /// The debug form: the canonical text wrapped in the host scripting
    /// language's path-literal notation, a caret followed by a quoted string.
    pub fn to_debug_string(&self) -> (r: String)
        ensures
            r@ == "^\""@ + self@ + "\""@,
    {
        let mut out = String::new();
        out.append("^\"");
        out.append(self.text.as_str());
        out.append("\"");
        out
    }
}

impl Clone for NodePath {
    /// Copies text and components; the copy has the same view and parts.
    fn clone(&self) -> (r: Self)
        ensures
            r@ == self@,
            r.names_view() == self.names_view(),
            r.subnames_view() == self.subnames_view(),
    {
        NodePath {
            text: self.text.clone(),
            names: clone_string_vec(&self.names),
            subnames: clone_string_vec(&self.subnames),
        }
    }
}

fn clone_string_vec(v: &Vec<String>) -> (r: Vec<String>)
    ensures
        r.deep_view() == v.deep_view(),
{
    let mut out: Vec<String> = Vec::new();
    let mut i: usize = 0;
    while i < v.len()
        invariant
            i <= v.len(),
            out.deep_view() == v.deep_view().subrange(0, i as int),
        decreases v.len() - i,
    {
        let ghost old_dv = out.deep_view();
        out.push(v[i].clone());
        proof {
            assert(out.deep_view() =~= old_dv.push(v@[i as int]@));
            assert(out.deep_view() =~= v.deep_view().subrange(0, i + 1));
        }
        i = i + 1;
    }
    proof {
        assert(v.deep_view().subrange(0, v@.len() as int) =~= v.deep_view());
    }
    out
}

impl PartialEq for NodePath {
    /// Paths are equal exactly when their canonical texts are equal.
    fn eq(&self, other: &NodePath) -> (r: bool) {
        self.text.eq(&other.text)
    }
}

impl vstd::std_specs::cmp::PartialEqSpecImpl for NodePath {
    open spec fn obeys_eq_spec() -> bool {
        true
    }

    open spec fn eq_spec(&self, other: &NodePath) -> bool {
        self@ == other@
    }
}

impl Default for NodePath {
    /// The empty path.
    fn default() -> (r: Self)
        ensures
            r.wf(),
            r@ == Seq::<char>::empty(),
    {
        let r = NodePath::from("");
        proof {
            reveal_strlit("");
            assert(trunc_nul(""@) =~= Seq::<char>::empty());
        }
        r
    }
}


/// The subname tail of a path's text: each subname preceded by a colon.
pub open spec fn colon_tail(subs: Seq<Seq<char>>) -> Seq<char>
    decreases subs.len(),
{
    if subs.len() == 0 {
        Seq::empty()
    } else {
        seq![':'] + subs[0] + colon_tail(subs.subrange(1, subs.len() as int))
    }
}

/// The canonical text a component list denotes: names joined by slashes,
/// then each subname preceded by a colon.
pub open spec fn path_text(names: Seq<Seq<char>>, subs: Seq<Seq<char>>) -> Seq<char> {
    join_sep(names, '/') + colon_tail(subs)
}

/// A well-formed name component: non-empty, free of separators and NUL.
pub open spec fn name_seg_ok(seg: Seq<char>) -> bool {
    seg_ok(seg, '/', ':', '\0')
}

/// A well-formed subname component: non-empty, free of colons and NUL.
pub open spec fn sub_seg_ok(seg: Seq<char>) -> bool {
    seg_ok(seg, ':', '\0', '\0')
}

/// All components of both lists are well-formed.
pub open spec fn parts_ok(names: Seq<Seq<char>>, subs: Seq<Seq<char>>) -> bool {
    &&& forall|j: int| 0 <= j < names.len() ==> name_seg_ok(#[trigger] names[j])
    &&& forall|j: int| 0 <= j < subs.len() ==> sub_seg_ok(#[trigger] subs[j])
}

/// Parsing NUL-free text yields well-formed components, no more numerous
/// than the text's characters.
pub proof fn lemma_parse_parts(t: Seq<char>)
    requires
        forall|k: int| 0 <= k < t.len() ==> t[k] != '\0',
    ensures
        parts_ok(parse_names(t), parse_subnames(t)),
        parse_names(t).len() <= t.len(),
        parse_subnames(t).len() <= t.len(),
{
    let pre = prefix_before(t, ':');
    lemma_prefix_chars(t, ':', '\0');
    lemma_split_acc_segments(pre, '/', Seq::empty(), ':', '\0');
    lemma_split_acc_bound(pre, '/', Seq::empty());
    let post = suffix_after(t, ':');
    lemma_suffix_chars(t, ':', '\0');
    lemma_split_acc_segments(post, ':', Seq::empty(), '\0', '\0');
    lemma_split_acc_bound(post, ':', Seq::empty());
}

/// The subname tail equals a colon followed by the colon-join of the
/// subnames, when there are any.
proof fn lemma_colon_tail_join(subs: Seq<Seq<char>>)
    ensures
        subs.len() == 0 ==> colon_tail(subs) == Seq::<char>::empty(),
        subs.len() > 0 ==> colon_tail(subs) == seq![':'] + join_sep(subs, ':'),
    decreases subs.len(),
{
    if subs.len() == 1 {
        assert(colon_tail(subs.subrange(1, subs.len() as int)) == Seq::<char>::empty());
        assert(seq![':'] + subs[0] + Seq::<char>::empty() =~= seq![':'] + join_sep(subs, ':'));
    } else if subs.len() > 1 {
        let rest = subs.subrange(1, subs.len() as int);
        lemma_colon_tail_join(rest);
        assert(colon_tail(subs) == seq![':'] + subs[0] + (seq![':'] + join_sep(rest, ':')));
        assert(join_sep(subs, ':') == subs[0] + seq![':'] + join_sep(rest, ':'));
        assert(seq![':'] + subs[0] + (seq![':'] + join_sep(rest, ':')) =~= seq![':'] + (subs[0]
            + seq![':'] + join_sep(rest, ':')));
    }
}

/// Appending one subname appends a colon and that subname to the tail.
proof fn lemma_colon_tail_push(subs: Seq<Seq<char>>, seg: Seq<char>)
    ensures
        colon_tail(subs.push(seg)) == colon_tail(subs) + seq![':'] + seg,
    decreases subs.len(),
{
    let p = subs.push(seg);
    if subs.len() == 0 {
        assert(p.subrange(1, p.len() as int) =~= Seq::<Seq<char>>::empty());
        assert(colon_tail(p) == seq![':'] + p[0] + colon_tail(p.subrange(1, p.len() as int)));
        assert(colon_tail(Seq::<Seq<char>>::empty()) == Seq::<char>::empty());
        assert(p[0] == seg);
        assert(colon_tail(p) =~= colon_tail(subs) + seq![':'] + seg);
    } else {
        let rest = subs.subrange(1, subs.len() as int);
        lemma_colon_tail_push(rest, seg);
        assert(p.subrange(1, p.len() as int) =~= rest.push(seg));
        assert(colon_tail(p) == seq![':'] + p[0] + colon_tail(rest.push(seg)));
        assert(p[0] == subs[0]);
        assert(seq![':'] + subs[0] + (colon_tail(rest) + seq![':'] + seg) =~= (seq![':'] + subs[0]
            + colon_tail(rest)) + seq![':'] + seg);
    }
}

/// Round trip: parsing the canonical text of well-formed components yields
/// the components back, and that text holds no NUL.
pub proof fn lemma_parse_path_text(names: Seq<Seq<char>>, subs: Seq<Seq<char>>)
    requires
        parts_ok(names, subs),
    ensures
        parse_names(path_text(names, subs)) == names,
        parse_subnames(path_text(names, subs)) == subs,
        forall|k: int| 0 <= k < path_text(names, subs).len() ==> path_text(names, subs)[k] != '\0',
{
    let jn = join_sep(names, '/');
    let ct = colon_tail(subs);
    let t = jn + ct;
    assert(forall|j: int| 0 <= j < names.len() ==> seg_ok(#[trigger] names[j], '/', ':', '\0'));
    lemma_join_chars(names, '/', ':', '\0');
    lemma_colon_tail_join(subs);
    assert(crate::text::segs_ok(names, '/')) by {
        assert(forall|j: int|
            0 <= j < names.len() ==> (#[trigger] names[j]).len() > 0 && (forall|k: int|
                0 <= k < names[j].len() ==> names[j][k] != '/'));
    }
    lemma_split_join(names, '/');
    if subs.len() == 0 {
        assert(t =~= jn);
        lemma_prefix_suffix_at(t, ':', jn.len() as int);
        assert(t.subrange(0, jn.len() as int) =~= jn);
        assert(parse_names(t) == names);
        assert(parse_subnames(t) =~= subs);
    } else {
        assert(ct == seq![':'] + join_sep(subs, ':'));
        assert(t[jn.len() as int] == ':');
        lemma_prefix_suffix_at(t, ':', jn.len() as int);
        assert(t.subrange(0, jn.len() as int) =~= jn);
        assert(t.subrange(jn.len() as int + 1, t.len() as int) =~= join_sep(subs, ':'));
        assert(forall|j: int| 0 <= j < subs.len() ==> seg_ok(#[trigger] subs[j], ':', '\0', '\0'));
        assert(crate::text::segs_ok(subs, ':')) by {
            assert(forall|j: int|
                0 <= j < subs.len() ==> (#[trigger] subs[j]).len() > 0 && (forall|k: int|
                    0 <= k < subs[j].len() ==> subs[j][k] != ':'));
        }
        lemma_split_join(subs, ':');
        lemma_join_chars(subs, ':', '\0', '\0');
        assert(forall|k: int| 0 <= k < t.len() ==> t[k] != '\0') by {
            assert(forall|k: int| 0 <= k < jn.len() ==> t[k] == jn[k]);
            assert(t[jn.len() as int] == ':');
            assert(forall|k: int|
                jn.len() + 1 <= k < t.len() ==> t[k] == join_sep(subs, ':')[k - jn.len() - 1]);
        }
    }
}

/// One bound of a host-language range over path components.
#[derive(Clone, Copy)]
pub enum PathBound {
    /// The bound is this component index, itself inside the range.
    Included(i64),
    /// The bound is this component index, itself outside the range.
    Excluded(i64),
    /// No bound on this side.
    Unbounded,
}

/// The engine's "largest representable end" sentinel for slicing.
pub const SLICE_END_SENTINEL: i64 = 2147483647;

/// Maps a host range start to the engine's begin index: an excluded start of
/// -1 means "from nothing" and maps to the end sentinel; any other excluded
/// start begins one past it; an included start is itself; no bound means 0.
pub open spec fn map_start_bound(b: PathBound) -> int {
    match b {
        PathBound::Excluded(s) => if s == -1 {
            SLICE_END_SENTINEL as int
        } else {
            s + 1
        },
        PathBound::Included(s) => s as int,
        PathBound::Unbounded => 0,
    }
}

/// Maps a host range end to the engine's end index: an excluded end is
/// itself; an included end of -1 means "through the last element" and maps
/// to the end sentinel; any other included end reaches one past it; no bound
/// means the sentinel.
pub open spec fn map_end_bound(b: PathBound) -> int {
    match b {
        PathBound::Excluded(e) => e as int,
        PathBound::Included(e) => if e == -1 {
            SLICE_END_SENTINEL as int
        } else {
            e + 1
        },
        PathBound::Unbounded => SLICE_END_SENTINEL as int,
    }
}

/// Clamps an index to [-total, total], then wraps a negative index from the
/// end, as the engine's one-past-end slicing convention does.
pub open spec fn clamp_wrap(x: int, total: int) -> int {
    let y = if x < -total {
        -total
    } else if x > total {
        total
    } else {
        x
    };
    if y < 0 {
        y + total
    } else {
        y
    }
}

/// The elements of `s` from `lo` to `hi`, empty when the window is inverted.
pub open spec fn seq_window<T>(s: Seq<T>, lo: int, hi: int) -> Seq<T> {
    if lo >= hi {
        Seq::empty()
    } else {
        s.subrange(lo, hi)
    }
}

/// The name components a slice over mapped bounds `b..e` keeps.
pub open spec fn slice_names(names: Seq<Seq<char>>, subs: Seq<Seq<char>>, b: int, e: int) -> Seq<
    Seq<char>,
> {
    let nc = names.len() as int;
    let total = nc + subs.len() as int;
    let begin = clamp_wrap(b, total);
    let end = clamp_wrap(e, total);
    seq_window(names, if begin > nc { nc } else { begin }, if end > nc { nc } else { end })
}

/// The subname components a slice over mapped bounds `b..e` keeps.
pub open spec fn slice_subnames(names: Seq<Seq<char>>, subs: Seq<Seq<char>>, b: int, e: int) -> Seq<
    Seq<char>,
> {
    let nc = names.len() as int;
    let total = nc + subs.len() as int;
    let begin = clamp_wrap(b, total);
    let end = clamp_wrap(e, total);
    seq_window(subs, if begin > nc { begin - nc } else { 0 }, if end > nc { end - nc } else { 0 })
}

/// Clones the elements of `v` from `lo` to `hi`; empty when inverted.
fn copy_range(v: &Vec<String>, lo: usize, hi: usize) -> (r: Vec<String>)
    requires
        hi <= v.len(),
    ensures
        r.deep_view() == seq_window(v.deep_view(), lo as int, hi as int),
{
    let mut out: Vec<String> = Vec::new();
    if lo >= hi {
        proof {
            assert(out.deep_view() =~= seq_window(v.deep_view(), lo as int, hi as int));
        }
        return out;
    }
    let mut i: usize = lo;
    proof {
        assert(out.deep_view() =~= v.deep_view().subrange(lo as int, lo as int));
    }
    while i < hi
        invariant
            lo <= i <= hi <= v.len(),
            out.deep_view() == v.deep_view().subrange(lo as int, i as int),
        decreases hi - i,
    {
        let ghost old_dv = out.deep_view();
        out.push(v[i].clone());
        proof {
            assert(out.deep_view() =~= old_dv.push(v@[i as int]@));
            assert(out.deep_view() =~= v.deep_view().subrange(lo as int, i + 1));
        }
        i = i + 1;
    }
    out
}

/// Renders components back to canonical text: names joined by slashes, then
/// each subname preceded by a colon.
fn build_text(names: &Vec<String>, subs: &Vec<String>) -> (t: String)
    ensures
        t@ == path_text(names.deep_view(), subs.deep_view()),
{
    let mut out = String::new();
    let mut i: usize = 0;
    proof {
        assert(names.deep_view().subrange(0, 0) =~= Seq::<Seq<char>>::empty());
    }
    while i < names.len()
        invariant
            i <= names.len(),
            out@ == join_sep(names.deep_view().subrange(0, i as int), '/'),
        decreases names.len() - i,
    {
        let ghost sofar = names.deep_view().subrange(0, i as int);
        if i > 0 {
            out.append("/");
        }
        out.append(names[i].as_str());
        proof {
            reveal_strlit("/");
            assert("/"@ =~= seq!['/']);
            lemma_join_push(sofar, '/', names.deep_view()[i as int]);
            assert(sofar.push(names.deep_view()[i as int]) =~= names.deep_view().subrange(
                0,
                i + 1,
            ));
            assert(out@ =~= join_sep(names.deep_view().subrange(0, i + 1), '/'));
        }
        i = i + 1;
    }
    proof {
        assert(names.deep_view().subrange(0, names.deep_view().len() as int)
            =~= names.deep_view());
        assert(subs.deep_view().subrange(0, 0) =~= Seq::<Seq<char>>::empty());
        assert(out@ =~= join_sep(names.deep_view(), '/') + colon_tail(
            subs.deep_view().subrange(0, 0),
        ));
    }
    let mut j: usize = 0;
    while j < subs.len()
        invariant
            j <= subs.len(),
            out@ == join_sep(names.deep_view(), '/') + colon_tail(
                subs.deep_view().subrange(0, j as int),
            ),
        decreases subs.len() - j,
    {
        let ghost sofar = subs.deep_view().subrange(0, j as int);
        out.append(":");
        out.append(subs[j].as_str());
        proof {
            reveal_strlit(":");
            assert(":"@ =~= seq![':']);
            lemma_colon_tail_push(sofar, subs.deep_view()[j as int]);
            assert(sofar.push(subs.deep_view()[j as int]) =~= subs.deep_view().subrange(
                0,
                j + 1,
            ));
            assert(out@ =~= join_sep(names.deep_view(), '/') + colon_tail(
                subs.deep_view().subrange(0, j + 1),
            ));
        }
        j = j + 1;
    }
    proof {
        assert(subs.deep_view().subrange(0, subs.deep_view().len() as int) =~= subs.deep_view());
    }
    out
}

impl NodePath {
    /// The slice of the path between two host-language range bounds, as a
    /// new path. The bounds are first mapped to the engine's begin/end pair
    /// (`map_start_bound`, `map_end_bound`), then clamped and wrapped over
    /// the total component count; names and subnames are indexed as one
    /// list, names first.
    #[verifier::rlimit(100)]
    #[verifier::spinoff_prover]
    pub fn slice(&self, start: PathBound, end: PathBound) -> (r: NodePath)
        requires
            self.wf(),
            self.names_view().len() + self.subnames_view().len() <= u32::MAX,
            start matches PathBound::Excluded(s) ==> s < i64::MAX,
            end matches PathBound::Included(e) ==> e < i64::MAX,
        ensures
            r.wf(),
            r.names_view() == slice_names(
                self.names_view(),
                self.subnames_view(),
                map_start_bound(start),
                map_end_bound(end),
            ),
            r.subnames_view() == slice_subnames(
                self.names_view(),
                self.subnames_view(),
                map_start_bound(start),
                map_end_bound(end),
            ),
            r@ == path_text(r.names_view(), r.subnames_view()),
    {
        let b: i64 = match start {
            PathBound::Excluded(s) => if s == -1 {
                SLICE_END_SENTINEL
            } else {
                s + 1
            },
            PathBound::Included(s) => s,
            PathBound::Unbounded => 0,
        };
        let e: i64 = match end {
            PathBound::Excluded(x) => x,
            PathBound::Included(x) => if x == -1 {
                SLICE_END_SENTINEL
            } else {
                x + 1
            },
            PathBound::Unbounded => SLICE_END_SENTINEL,
        };
        proof {
            assert(self.names_view().len() == self.names@.len());
            assert(self.subnames_view().len() == self.subnames@.len());
            assert(b as int == map_start_bound(start));
            assert(e as int == map_end_bound(end));
        }
        let nc: usize = self.names.len();
        let sc: usize = self.subnames.len();
        let total: i64 = (nc as i64) + (sc as i64);
        let ghost tot: int = total as int;
        let ghost bb: int = clamp_wrap(map_start_bound(start), tot);
        let ghost ee: int = clamp_wrap(map_end_bound(end), tot);
        let mut begin: i64 = if b < -total {
            -total
        } else if b > total {
            total
        } else {
            b
        };
        if begin < 0 {
            begin = begin + total;
        }
        let mut endi: i64 = if e < -total {
            -total
        } else if e > total {
            total
        } else {
            e
        };
        if endi < 0 {
            endi = endi + total;
        }
        proof {
            assert(begin as int == bb);
            assert(endi as int == ee);
            assert(0 <= bb <= tot);
            assert(0 <= ee <= tot);
        }
        let nb: usize = if begin > nc as i64 {
            nc
        } else {
            begin as usize
        };
        let ne: usize = if endi > nc as i64 {
            nc
        } else {
            endi as usize
        };
        let sb: usize = if begin > nc as i64 {
            (begin - nc as i64) as usize
        } else {
            0
        };
        let se: usize = if endi > nc as i64 {
            (endi - nc as i64) as usize
        } else {
            0
        };
        proof {
            assert(nb as int == if bb > nc as int { nc as int } else { bb });
            assert(ne as int == if ee > nc as int { nc as int } else { ee });
            assert(sb as int == if bb > nc as int { bb - nc as int } else { 0int });
            assert(se as int == if ee > nc as int { ee - nc as int } else { 0int });
        }
        let new_names = copy_range(&self.names, nb, ne);
        let new_subs = copy_range(&self.subnames, sb, se);
        let text = build_text(&new_names, &new_subs);
        proof {
            lemma_parse_parts(self@);
            assert(new_names.deep_view() == slice_names(
                self.names_view(),
                self.subnames_view(),
                map_start_bound(start),
                map_end_bound(end),
            ));
            assert(new_subs.deep_view() == slice_subnames(
                self.names_view(),
                self.subnames_view(),
                map_start_bound(start),
                map_end_bound(end),
            ));
            assert forall|j: int| 0 <= j < new_names.deep_view().len() implies name_seg_ok(
                new_names.deep_view()[j],
            ) by {
                assert(new_names.deep_view()[j] == self.names_view()[nb + j]);
            }
            assert forall|j: int| 0 <= j < new_subs.deep_view().len() implies sub_seg_ok(
                new_subs.deep_view()[j],
            ) by {
                assert(new_subs.deep_view()[j] == self.subnames_view()[sb + j]);
            }
            lemma_parse_path_text(new_names.deep_view(), new_subs.deep_view());
        }
        NodePath { text, names: new_names, subnames: new_subs }
    }
}


/// Display round trip: a path parsed from `s` renders as `s` truncated at
/// its first embedded NUL terminator, `i` being the terminator's position
/// (or the length when there is none, so such text renders unchanged).
pub proof fn lemma_display_round_trip(s: Seq<char>, i: int, p: NodePath)
    requires
        p@ == trunc_nul(s),
        0 <= i <= s.len(),
        forall|k: int| 0 <= k < i ==> s[k] != '\0',
        i < s.len() ==> s[i] == '\0',
    ensures
        p@ == s.subrange(0, i),
{
    lemma_trunc_nul_at(s, i);
}

/// Terminator-equivalence: two paths parsed from texts that agree up to
/// their first embedded NUL are equal, hash identically, and hold the same
/// components.
pub proof fn lemma_terminator_equivalent_paths(
    s1: Seq<char>,
    s2: Seq<char>,
    p1: NodePath,
    p2: NodePath,
)
    requires
        p1.wf(),
        p2.wf(),
        p1@ == trunc_nul(s1),
        p2@ == trunc_nul(s2),
        trunc_nul(s1) == trunc_nul(s2),
    ensures
        p1.eq_spec(&p2),
        hash_spec(p1@) == hash_spec(p2@),
        p1.names_view() == p2.names_view(),
        p1.subnames_view() == p2.subnames_view(),
{
}

} // verus!
