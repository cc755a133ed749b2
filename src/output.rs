//! Tagging of streamed output lines so that each printed line can be
//! attributed to its repository, command and stream.
use vstd::prelude::*;

verus! {

/// Which output stream of a command a line came from.
#[derive(Clone, Copy, Debug, PartialEq, Eq, Structural)]
pub enum StreamRole {
    Stdout,
    Stderr,
}

/// The colour a line's tag is printed in.
#[derive(Clone, Copy, Debug, PartialEq, Eq, Structural)]
pub enum TagColor {
    Green,
    Red,
}

pub open spec fn spec_color(role: StreamRole) -> TagColor {
    match role {
        StreamRole::Stdout => TagColor::Green,
        StreamRole::Stderr => TagColor::Red,
    }
}

impl StreamRole {
    /// Success stream in green, error stream in red.
    pub fn color(&self) -> (r: TagColor)
        ensures
            r == spec_color(*self),
    {
        match self {
            StreamRole::Stdout => TagColor::Green,
            StreamRole::Stderr => TagColor::Red,
        }
    }
}

/// `[<relative path>][<prefix>] `
pub open spec fn spec_tag(relative: Seq<char>, prefix: Seq<char>) -> Seq<char> {
    seq!['['] + relative + seq![']', '['] + prefix + seq![']', ' ']
}

/// The tag printed before each line of a command's output.
pub fn format_tag(relative: &str, prefix: &str) -> (r: String)
    ensures
        r@ == spec_tag(relative@, prefix@),
{
    proof {
        reveal_strlit("[");
        reveal_strlit("][");
        reveal_strlit("] ");
    }
    let mut r = String::from_str("[");
    r.append(relative);
    r.append("][");
    r.append(prefix);
    r.append("] ");
    assert(r@ =~= spec_tag(relative@, prefix@));
    r
}

/// The abstract content of a tagged line.
pub struct TaggedModel {
    pub role: StreamRole,
    pub color: TagColor,
    pub tag: Seq<char>,
    pub text: Seq<char>,
}

/// One line of a command's output, ready to be emitted.
pub struct TaggedLine {
    pub role: StreamRole,
    pub color: TagColor,
    pub tag: String,
    pub text: String,
}

impl View for TaggedLine {
    type V = TaggedModel;

    open spec fn view(&self) -> TaggedModel {
        TaggedModel { role: self.role, color: self.color, tag: self.tag@, text: self.text@ }
    }
}

pub open spec fn spec_tag_line(
    relative: Seq<char>,
    prefix: Seq<char>,
    role: StreamRole,
    text: Seq<char>,
) -> TaggedModel {
    TaggedModel { role, color: spec_color(role), tag: spec_tag(relative, prefix), text }
}

/// Tags one line read from stream `role` of the command with display prefix
/// `prefix`, run in the repository at `relative`.
pub fn tag_line(relative: &str, prefix: &str, role: StreamRole, text: String) -> (r: TaggedLine)
    ensures
        r@ == spec_tag_line(relative@, prefix@, role, text@),
{
    TaggedLine { role, color: role.color(), tag: format_tag(relative, prefix), text }
}

/// Tagging the lines of one stream, line by line, keeps every line once, in
/// order and with its text, and gives each the stream's colour and the tag of
/// its repository and command.
pub proof fn lemma_stream_lines_attributed(
    relative: Seq<char>,
    prefix: Seq<char>,
    role: StreamRole,
    lines: Seq<Seq<char>>,
)
    ensures
        ({
            let out = lines.map_values(|l: Seq<char>| spec_tag_line(relative, prefix, role, l));
            &&& out.len() == lines.len()
            &&& forall|i: int|
                0 <= i < out.len() ==> out[i].text == lines[i] && out[i].role == role
                    && out[i].color == spec_color(role) && out[i].tag == spec_tag(relative, prefix)
        }),
{
}

/// Lines of the two streams are told apart by colour.
pub proof fn lemma_roles_distinct_colors()
    ensures
        spec_color(StreamRole::Stdout) != spec_color(StreamRole::Stderr),
{
}


/// A tag names its source unambiguously: where repository paths hold no
/// `]`, equal tags come from the same repository path and the same prefix.
pub proof fn lemma_tag_parseable(r1: Seq<char>, p1: Seq<char>, r2: Seq<char>, p2: Seq<char>)
    requires
        !r1.contains(']'),
        !r2.contains(']'),
        spec_tag(r1, p1) == spec_tag(r2, p2),
    ensures
        r1 == r2,
        p1 == p2,
{
    let t = spec_tag(r1, p1);
    if r1.len() < r2.len() {
        assert(t[1 + r1.len() as int] == ']');
        assert(spec_tag(r2, p2)[1 + r1.len() as int] == r2[r1.len() as int]);
        assert(r2.contains(r2[r1.len() as int]));
    }
    if r2.len() < r1.len() {
        assert(spec_tag(r2, p2)[1 + r2.len() as int] == ']');
        assert(t[1 + r2.len() as int] == r1[r2.len() as int]);
        assert(r1.contains(r1[r2.len() as int]));
    }
    assert(r1 =~= t.subrange(1, 1 + r1.len() as int));
    assert(r2 =~= spec_tag(r2, p2).subrange(1, 1 + r2.len() as int));
    assert(p1 =~= t.subrange(3 + r1.len() as int, t.len() - 2));
    assert(p2 =~= spec_tag(r2, p2).subrange(3 + r2.len() as int, t.len() - 2));
}

} // verus!
