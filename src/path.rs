//! Compiling path patterns and matching inbound paths against them.
use crate::strmap::StringMap;
use vstd::prelude::*;

verus! {

/// One component of a compiled pattern, as a mathematical value.
pub enum SegmentView {
    Literal(Seq<char>),
    Param(Seq<char>),
}

/// One component of a compiled pattern.
pub enum Segment {
    /// Must equal the inbound component verbatim.
    Literal(String),
    /// Captures the inbound component under this name.
    Param(String),
}

impl View for Segment {
    type V = SegmentView;

    open spec fn view(&self) -> SegmentView {
        match self {
            Segment::Literal(s) => SegmentView::Literal(s@),
            Segment::Param(s) => SegmentView::Param(s@),
        }
    }
}

/// The components of `s` read so far, and the piece still being read,
/// when `s` is split at every `/` and empty pieces are dropped.
pub open spec fn split_state(s: Seq<char>) -> (Seq<Seq<char>>, Seq<char>)
    decreases s.len(),
{
    if s.len() == 0 {
        (Seq::empty(), Seq::empty())
    } else {
        let (done, cur) = split_state(s.drop_last());
        if s.last() == '/' {
            (if cur.len() > 0 { done.push(cur) } else { done }, Seq::empty())
        } else {
            (done, cur.push(s.last()))
        }
    }
}

/// The non-empty pieces of `s` between separators `/`, in order.
pub open spec fn components(s: Seq<char>) -> Seq<Seq<char>> {
    let (done, cur) = split_state(s);
    if cur.len() > 0 {
        done.push(cur)
    } else {
        done
    }
}

pub open spec fn strings_view(v: Seq<String>) -> Seq<Seq<char>> {
    v.map_values(|x: String| x@)
}

/// Splits `path` into its non-empty components between separators `/`.
pub fn split_path(path: &str) -> (r: Vec<String>)
    ensures
        strings_view(r@) == components(path@),
{
    let n = path.unicode_len();
    let mut out: Vec<String> = Vec::new();
    let mut start: usize = 0;
    let mut i: usize = 0;
    while i < n
        invariant
            n == path@.len(),
            start <= i <= n,
            split_state(path@.take(i as int)) == (strings_view(out@), path@.subrange(
                start as int,
                i as int,
            )),
        decreases n - i,
    {
        let c = path.get_char(i);
        proof {
            assert(path@.take(i + 1).drop_last() =~= path@.take(i as int));
            assert(path@.subrange(start as int, i + 1) =~= path@.subrange(
                start as int,
                i as int,
            ).push(c));
        }
        if c == '/' {
            if start < i {
                let piece = path.substring_char(start, i).to_owned();
                let ghost before = out@;
                out.push(piece);
                proof {
                    assert(strings_view(out@) =~= strings_view(before).push(piece@));
                }
            }
            start = i + 1;
        }
        i = i + 1;
    }
    if start < n {
        let piece = path.substring_char(start, n).to_owned();
        let ghost before = out@;
        out.push(piece);
        proof {
            assert(strings_view(out@) =~= strings_view(before).push(piece@));
        }
    }
    proof {
        assert(path@.take(n as int) =~= path@);
    }
    out
}

/// Whether a component is written `{name}`: braces at both ends.
pub open spec fn is_param_component(c: Seq<char>) -> bool {
    c.len() >= 2 && c[0] == '{' && c.last() == '}'
}

/// The segment that one pattern component compiles to.
pub open spec fn compile_component(c: Seq<char>) -> SegmentView {
    if is_param_component(c) {
        SegmentView::Param(c.subrange(1, c.len() - 1))
    } else {
        SegmentView::Literal(c)
    }
}

/// The compiled form of a pattern: one segment per non-empty component.
pub open spec fn compiled(pattern: Seq<char>) -> Seq<SegmentView> {
    components(pattern).map_values(|c: Seq<char>| compile_component(c))
}

pub open spec fn segments_view(segs: Seq<Segment>) -> Seq<SegmentView> {
    segs.map_values(|s: Segment| s@)
}

/// Whether compiled segments match the components of an inbound path:
/// the counts agree and every literal equals its component.
pub open spec fn path_matches(segs: Seq<SegmentView>, parts: Seq<Seq<char>>) -> bool {
    &&& segs.len() == parts.len()
    &&& forall|i: int|
        0 <= i < segs.len() ==> match #[trigger] segs[i] {
            SegmentView::Literal(lit) => lit == parts[i],
            SegmentView::Param(_) => true,
        }
}

/// The parameters captured by the first `k` segments, a later capture of a
/// name overriding an earlier one.
pub open spec fn captures(segs: Seq<SegmentView>, parts: Seq<Seq<char>>, k: int) -> Map<
    Seq<char>,
    Seq<char>,
>
    decreases k,
{
    if k <= 0 {
        Map::empty()
    } else {
        let m = captures(segs, parts, k - 1);
        match segs[k - 1] {
            SegmentView::Param(name) => m.insert(name, parts[k - 1]),
            SegmentView::Literal(_) => m,
        }
    }
}

/// What matching compiled segments against an inbound path gives: the
/// captured parameters, or `None` when the path does not match.
pub open spec fn match_result(segs: Seq<SegmentView>, path: Seq<char>) -> Option<
    Map<Seq<char>, Seq<char>>,
> {
    let parts = components(path);
    if path_matches(segs, parts) {
        Some(captures(segs, parts, segs.len() as int))
    } else {
        None
    }
}

/// Compiles one non-empty component.
fn compile_one(c: String) -> (r: Segment)
    ensures
        r@ == compile_component(c@),
{
    let n = c.as_str().unicode_len();
    if n >= 2 && c.as_str().get_char(0) == '{' && c.as_str().get_char(n - 1) == '}' {
        Segment::Param(c.as_str().substring_char(1, n - 1).to_owned())
    } else {
        Segment::Literal(c)
    }
}

/// Compiles a pattern: its non-empty components between `/` separators, each
/// `{name}` becoming a parameter and every other component a literal.
pub fn compile_path(pattern: &str) -> (r: Vec<Segment>)
    ensures
        segments_view(r@) == compiled(pattern@),
{
    let parts = split_path(pattern);
    let ghost comps = components(pattern@);
    let mut out: Vec<Segment> = Vec::new();
    let mut i: usize = 0;
    while i < parts.len()
        invariant
            i <= parts@.len(),
            strings_view(parts@) == comps,
            comps == components(pattern@),
            segments_view(out@) == comps.take(i as int).map_values(
                |c: Seq<char>| compile_component(c),
            ),
        decreases parts@.len() - i,
    {
        let seg = compile_one(parts[i].clone());
        let ghost before = out@;
        out.push(seg);
        proof {
            assert(parts@[i as int]@ == comps[i as int]);
            assert(segments_view(out@) =~= segments_view(before).push(seg@));
            assert(comps.take(i + 1).map_values(|c: Seq<char>| compile_component(c)) =~= comps.take(
                i as int,
            ).map_values(|c: Seq<char>| compile_component(c)).push(compile_component(comps[i as int])));
            assert(segments_view(out@) =~= comps.take(i + 1).map_values(
                |c: Seq<char>| compile_component(c),
            ));
        }
        i = i + 1;
    }
    proof {
        assert(comps.take(i as int) =~= comps);
    }
    out
}

/// Matches compiled segments against an inbound path. The path is split as
/// patterns are; it matches when the counts agree and every literal equals
/// its component, and each parameter then captures its component.
pub fn match_path(segments: &[Segment], path: &str) -> (r: Option<StringMap>)
    ensures
        r is Some <==> match_result(segments_view(segments@), path@) is Some,
        r is Some ==> r->0@ == match_result(segments_view(segments@), path@)->0,
{
    let parts = split_path(path);
    let ghost segs = segments_view(segments@);
    let ghost comps = components(path@);
    if segments.len() != parts.len() {
        return None;
    }
    let mut params = StringMap::new();
    let mut i: usize = 0;
    while i < segments.len()
        invariant
            i <= segments@.len(),
            segments@.len() == parts@.len(),
            segs == segments_view(segments@),
            strings_view(parts@) == comps,
            comps == components(path@),
            forall|j: int|
                0 <= j < i ==> match #[trigger] segs[j] {
                    SegmentView::Literal(lit) => lit == comps[j],
                    SegmentView::Param(_) => true,
                },
            params@ == captures(segs, comps, i as int),
        decreases segments@.len() - i,
    {
        proof {
            assert(parts@[i as int]@ == comps[i as int]);
            assert(segs[i as int] == segments@[i as int]@);
        }
        match &segments[i] {
            Segment::Literal(lit) => {
                if *lit != parts[i] {
                    return None;
                }
            },
            Segment::Param(name) => {
                params.insert(name.clone(), parts[i].clone());
            },
        }
        i = i + 1;
    }
    Some(params)
}

/// Compiling is deterministic: two compilations of one pattern give the
/// same segments.
pub proof fn lemma_compile_deterministic(pattern: &str, first: Seq<Segment>, second: Seq<Segment>)
    requires
        segments_view(first) == compiled(pattern@),
        segments_view(second) == compiled(pattern@),
    ensures
        segments_view(first) == segments_view(second),
{
}

} // verus!
