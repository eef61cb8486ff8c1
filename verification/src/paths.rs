//! Component-wise rewriting of paths.
//!
//! Two rewritings share one rule table: the one that prepares a path for
//! access to the filesystem keeps `..` and the root, the one that derives a
//! target below the resource directory replaces both by sentinel segments.
//! Neither consults the filesystem.

use vstd::prelude::*;
use vstd::string::*;

verus! {

/// One component of a path, with the text of an ordinary name.
#[derive(Debug, Clone, PartialEq, Eq)]
pub enum Component {
    /// A drive or volume prefix.
    Prefix,
    /// The root directory.
    RootDir,
    /// A reference to the current directory, `.`.
    CurDir,
    /// A reference to the parent directory, `..`.
    ParentDir,
    /// An ordinary name of a file or directory.
    Normal(String),
}

/// The mathematical value of a [`Component`].
pub enum Part {
    Prefix,
    RootDir,
    CurDir,
    ParentDir,
    Normal(Seq<char>),
}

impl View for Component {
    type V = Part;

    open spec fn view(&self) -> Part {
        match self {
            Component::Prefix => Part::Prefix,
            Component::RootDir => Part::RootDir,
            Component::CurDir => Part::CurDir,
            Component::ParentDir => Part::ParentDir,
            Component::Normal(name) => Part::Normal(name@),
        }
    }
}

/// Which of the two rewritings is asked for.
#[derive(Debug, Clone, Copy, PartialEq, Eq, Structural)]
pub enum Rewrite {
    /// For access to the filesystem: the root stays `/`, `..` stays `..`.
    Source,
    /// For a target: the root becomes `_root_`, `..` becomes `_up_`.
    Target,
}

/// The segment `_root_`, which stands for the root in a target.
pub open spec fn root_sentinel() -> Seq<char> {
    seq!['_', 'r', 'o', 'o', 't', '_']
}

/// The segment `_up_`, which stands for `..` in a target.
pub open spec fn up_sentinel() -> Seq<char> {
    seq!['_', 'u', 'p', '_']
}

impl Part {
    /// A component that survives rewriting; prefixes and `.` do not.
    pub open spec fn stays(self) -> bool {
        !(self is Prefix) && !(self is CurDir)
    }

    /// A name as the splitting of a path yields it: not empty, and neither
    /// `.` nor `..`, which have components of their own.
    pub open spec fn proper(self) -> bool {
        self matches Part::Normal(name) ==> name.len() > 0 && name != seq!['.'] && name != seq![
            '.',
            '.',
        ]
    }

    /// The segment that a surviving component is rewritten to.
    pub open spec fn segment(self, mode: Rewrite) -> Seq<char> {
        match self {
            Part::RootDir => match mode {
                Rewrite::Source => seq!['/'],
                Rewrite::Target => root_sentinel(),
            },
            Part::ParentDir => match mode {
                Rewrite::Source => seq!['.', '.'],
                Rewrite::Target => up_sentinel(),
            },
            Part::Normal(name) => name,
            _ => Seq::empty(),
        }
    }
}

/// The values of a sequence of components, in order.
pub open spec fn parts_of(components: Seq<Component>) -> Seq<Part> {
    components.map_values(|c: Component| c@)
}

/// The components that survive rewriting, in their order.
pub open spec fn kept(parts: Seq<Part>) -> Seq<Part> {
    parts.filter(|p: Part| p.stays())
}

/// The segments of the rewritten path: one for each surviving component.
pub open spec fn segments(parts: Seq<Part>, mode: Rewrite) -> Seq<Seq<char>> {
    kept(parts).map_values(|p: Part| p.segment(mode))
}

/// A path text with one more segment. A segment that starts at the root
/// replaces the text; otherwise it follows after one `/`, which is left out
/// where the text is empty or ends in `/` already.
pub open spec fn with_segment(text: Seq<char>, segment: Seq<char>) -> Seq<char> {
    if segment.len() > 0 && segment[0] == '/' {
        segment
    } else if text.len() == 0 || text.last() == '/' {
        text + segment
    } else {
        text + seq!['/'] + segment
    }
}

/// The path text made of the given segments, from left to right.
pub open spec fn joined(segments: Seq<Seq<char>>) -> Seq<char>
    decreases segments.len(),
{
    if segments.len() == 0 {
        Seq::empty()
    } else {
        with_segment(joined(segments.drop_last()), segments.last())
    }
}

/// The text of the rewritten path.
pub open spec fn rewritten(parts: Seq<Part>, mode: Rewrite) -> Seq<char> {
    joined(segments(parts, mode))
}

/// The name that a path ends in: its last component where that is an
/// ordinary name.
pub open spec fn final_name(parts: Seq<Part>) -> Option<Seq<char>> {
    if parts.len() > 0 && parts.last() is Normal {
        Some(parts.last()->Normal_0)
    } else {
        None
    }
}

/// Extending the components by one extends the segments by its segment, or
/// by nothing where the component does not survive.
proof fn lemma_segments_push(parts: Seq<Part>, part: Part, mode: Rewrite)
    ensures
        segments(parts.push(part), mode) == if part.stays() {
            segments(parts, mode).push(part.segment(mode))
        } else {
            segments(parts, mode)
        },
{
    parts.lemma_filter_push(part, |p: Part| p.stays());
    kept(parts).lemma_push_map_commute(|p: Part| p.segment(mode), part);
}

/// Appends one segment to a path text.
fn push_segment(text: &mut String, segment: &str)
    ensures
        final(text)@ == with_segment(old(text)@, segment@),
{
    let segment_len: usize = segment.unicode_len();
    if segment_len > 0 && segment.get_char(0) == '/' {
        *text = segment.to_owned();
    } else {
        let len: usize = text.as_str().unicode_len();
        if len == 0 || text.as_str().get_char(len - 1) == '/' {
            text.append(segment);
        } else {
            proof {
                reveal_strlit("/");
                assert("/"@ =~= seq!['/']);
            }
            text.append("/");
            text.append(segment);
        }
    }
}

/// The segment that a surviving component is rewritten to, or `None` for a
/// component that is dropped.
fn segment_text<'a>(component: &'a Component, mode: Rewrite) -> (segment: Option<&'a str>)
    ensures
        segment is Some <==> component@.stays(),
        segment matches Some(text) ==> text@ == component@.segment(mode),
{
    match component {
        Component::Prefix => None,
        Component::CurDir => None,
        Component::RootDir => {
            proof {
                reveal_strlit("/");
                reveal_strlit("_root_");
                assert("/"@ =~= seq!['/']);
                assert("_root_"@ =~= root_sentinel());
            }
            match mode {
                Rewrite::Source => Some("/"),
                Rewrite::Target => Some("_root_"),
            }
        },
        Component::ParentDir => {
            proof {
                reveal_strlit("..");
                reveal_strlit("_up_");
                assert(".."@ =~= seq!['.', '.']);
                assert("_up_"@ =~= up_sentinel());
            }
            match mode {
                Rewrite::Source => Some(".."),
                Rewrite::Target => Some("_up_"),
            }
        },
        Component::Normal(name) => Some(name.as_str()),
    }
}

/// Rewrites a path given by its components: prefixes and `.` are dropped,
/// the root and `..` are replaced as `mode` says, names are copied, and the
/// segments are joined in order.
pub fn rewrite_components(components: &[Component], mode: Rewrite) -> (text: String)
    ensures
        text@ == rewritten(parts_of(components@), mode),
{
    let ghost parts = parts_of(components@);
    let mut text = String::new();
    let mut i: usize = 0;
    assert(parts.take(0) =~= Seq::<Part>::empty());
    while i < components.len()
        invariant
            i <= components.len(),
            parts == parts_of(components@),
            text@ == rewritten(parts.take(i as int), mode),
        decreases components.len() - i,
    {
        proof {
            parts.lemma_take_succ_push(i as int);
            lemma_segments_push(parts.take(i as int), parts[i as int], mode);
            assert(segments(parts.take(i as int), mode).push(parts[i as int].segment(mode)).drop_last()
                =~= segments(parts.take(i as int), mode));
        }
        match segment_text(&components[i], mode) {
            Some(segment) => push_segment(&mut text, segment),
            None => {},
        }
        i += 1;
    }
    assert(parts.take(components.len() as int) =~= parts);
    text
}

/// The components that a path text is split into by the path syntax of the
/// platform that the crate is built for.
pub uninterp spec fn path_components(path: Seq<char>) -> Seq<Part>;

/// Every name among the parts is one that splitting can yield.
pub open spec fn all_proper(parts: Seq<Part>) -> bool {
    forall|i: int| 0 <= i < parts.len() ==> (#[trigger] parts[i]).proper()
}

/// Splits a path text into its components with `std::path::Path::components`.
///
/// Trusted: the result is what the standard library yields for this text,
/// one component of this crate for each of its own, with the text of each
/// ordinary name. As its documentation has it, `.` and `..` are components
/// of their own and repeated separators are ignored, so no ordinary name is
/// empty, `.` or `..`.
#[verifier::external_body]
pub(crate) fn split_components(path: &str) -> (components: Vec<Component>)
    ensures
        parts_of(components@) == path_components(path@),
        all_proper(parts_of(components@)),
{
    std::path::Path::new(path)
        .components()
        .map(|component| match component {
            std::path::Component::Prefix(_) => Component::Prefix,
            std::path::Component::RootDir => Component::RootDir,
            std::path::Component::CurDir => Component::CurDir,
            std::path::Component::ParentDir => Component::ParentDir,
            std::path::Component::Normal(name) => Component::Normal(
                name.to_string_lossy().into_owned(),
            ),
        })
        .collect()
}

/// Given a path (absolute or relative) to a resource file, returns the
/// relative path from the bundle resources directory where that resource
/// should be stored.
pub fn resource_relpath(path: &str) -> (target: String)
    ensures
        target@ == rewritten(path_components(path@), Rewrite::Target),
        all_proper(path_components(path@)),
{
    let components = split_components(path);
    rewrite_components(components.as_slice(), Rewrite::Target)
}

/// Normalizes a path for access to the filesystem: prefixes and `.` are
/// dropped, the root stays `/` and `..` stays navigable.
pub fn normalize(path: &str) -> (normalized: String)
    ensures
        normalized@ == rewritten(path_components(path@), Rewrite::Source),
        all_proper(path_components(path@)),
{
    let components = split_components(path);
    rewrite_components(components.as_slice(), Rewrite::Source)
}

/// The name that a path given by its components ends in, if it ends in one.
pub fn file_name_of(components: &[Component]) -> (name: Option<String>)
    ensures
        name is Some <==> final_name(parts_of(components@)) is Some,
        name matches Some(text) ==> Some(text@) == final_name(parts_of(components@)),
{
    let len: usize = components.len();
    if len == 0 {
        return None;
    }
    match &components[len - 1] {
        Component::Normal(name) => Some(name.clone()),
        _ => None,
    }
}

/// A path is normalized where none of its components is a prefix or `.`.
pub open spec fn is_normalized(parts: Seq<Part>) -> bool {
    forall|i: int| 0 <= i < parts.len() ==> (#[trigger] parts[i]).stays()
}

/// Filtering leaves a sequence unchanged where every item passes.
proof fn lemma_kept_of_staying(parts: Seq<Part>)
    requires
        is_normalized(parts),
    ensures
        kept(parts) == parts,
    decreases parts.len(),
{
    if parts.len() == 0 {
        reveal(Seq::filter);
    } else {
        lemma_kept_of_staying(parts.drop_last());
        assert(parts.drop_last().push(parts.last()) =~= parts);
        parts.drop_last().lemma_filter_push(parts.last(), |p: Part| p.stays());
    }
}

/// Each surviving component is one of the given components.
proof fn lemma_kept_from_parts(parts: Seq<Part>, i: int)
    requires
        0 <= i < kept(parts).len(),
    ensures
        kept(parts)[i].stays(),
        parts.contains(kept(parts)[i]),
{
    parts.lemma_filter_pred(|p: Part| p.stays(), i);
    assert(kept(parts).contains(kept(parts)[i]));
    parts.lemma_filter_contains_rev(|p: Part| p.stays(), kept(parts)[i]);
}

/// Normalizing is idempotent: what is left of a path is normalized, a
/// normalized path is left as it is, so that normalizing twice is
/// normalizing once; and the text of the rewritten path is the same before
/// and after.
pub proof fn law_normalize_idempotent(parts: Seq<Part>, mode: Rewrite)
    ensures
        is_normalized(kept(parts)),
        is_normalized(parts) ==> kept(parts) == parts,
        kept(kept(parts)) == kept(parts),
        rewritten(kept(parts), mode) == rewritten(parts, mode),
{
    assert forall|i: int| 0 <= i < kept(parts).len() implies (#[trigger] kept(parts)[i]).stays() by {
        lemma_kept_from_parts(parts, i);
    }
    lemma_kept_of_staying(kept(parts));
    if is_normalized(parts) {
        lemma_kept_of_staying(parts);
    }
}

/// The sentinels of a target: its segments are, one for one and in order,
/// the components other than prefixes and `.`; the root gives exactly the
/// segment `_root_`, each `..` exactly the segment `_up_`, each name itself.
/// A root at the head of the components gives `_root_` at the head of the
/// target. Where the names are proper, no segment is `.` or `..`.
pub proof fn law_target_sentinels(parts: Seq<Part>)
    ensures
        segments(parts, Rewrite::Target).len() == kept(parts).len(),
        forall|i: int|
            #![trigger kept(parts)[i]]
            0 <= i < kept(parts).len() ==> match kept(parts)[i] {
                Part::RootDir => segments(parts, Rewrite::Target)[i] == root_sentinel(),
                Part::ParentDir => segments(parts, Rewrite::Target)[i] == up_sentinel(),
                Part::Normal(name) => segments(parts, Rewrite::Target)[i] == name,
                _ => false,
            },
        parts.len() > 0 && parts[0] is RootDir ==> segments(parts, Rewrite::Target).len() > 0
            && segments(parts, Rewrite::Target)[0] == root_sentinel(),
        all_proper(parts) ==> forall|i: int|
            0 <= i < segments(parts, Rewrite::Target).len() ==> #[trigger] segments(
                parts,
                Rewrite::Target,
            )[i] != seq!['.'] && segments(parts, Rewrite::Target)[i] != seq!['.', '.'],
{
    let out = segments(parts, Rewrite::Target);
    assert forall|i: int| #![trigger kept(parts)[i]] 0 <= i < kept(parts).len() implies match kept(
        parts,
    )[i] {
        Part::RootDir => out[i] == root_sentinel(),
        Part::ParentDir => out[i] == up_sentinel(),
        Part::Normal(name) => out[i] == name,
        _ => false,
    } by {
        lemma_kept_from_parts(parts, i);
    }
    if parts.len() > 0 && parts[0] is RootDir {
        assert(seq![parts[0]] + parts.drop_first() =~= parts);
        parts.drop_first().lemma_filter_prepend(parts[0], |p: Part| p.stays());
        assert(kept(parts)[0] == parts[0]);
    }
    if all_proper(parts) {
        assert forall|i: int| 0 <= i < out.len() implies #[trigger] out[i] != seq!['.'] && out[i]
            != seq!['.', '.'] by {
            lemma_kept_from_parts(parts, i);
            let j = choose|j: int| 0 <= j < parts.len() && parts[j] == kept(parts)[i];
            assert(parts[j].proper());
            assert(root_sentinel()[0] == '_');
            assert(up_sentinel()[0] == '_');
            assert(seq!['.'][0] == '.');
            assert(seq!['.', '.'][0] == '.');
        }
    }
}

} // verus!
