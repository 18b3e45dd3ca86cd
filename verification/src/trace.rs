//! A compiler's list of included files: what a line of it says, which paths
//! lead to the file seen last, and how that chain is shown.

use vstd::prelude::*;
use vstd::string::{StrSliceExecFns, StringExecFns};

verus! {

/// Whether a character is white space, as `char::is_whitespace` tells.
pub uninterp spec fn spec_is_whitespace(c: char) -> bool;

/// `char::is_whitespace`: the name `spec_is_whitespace` stands for what it
/// tells of a character.
#[verifier::external_body]
fn is_whitespace(c: char) -> (r: bool)
    ensures
        r == spec_is_whitespace(c),
{
    c.is_whitespace()
}

/// The number of white-space characters that `s` starts with.
pub open spec fn spec_leading_space(s: Seq<char>) -> int
    decreases s.len(),
{
    if s.len() == 0 || !spec_is_whitespace(s[0]) {
        0
    } else {
        1 + spec_leading_space(s.drop_first())
    }
}

/// The length of `s` without the white-space characters that it ends with.
pub open spec fn spec_trimmed_len(s: Seq<char>) -> int
    decreases s.len(),
{
    if s.len() == 0 || !spec_is_whitespace(s.last()) {
        s.len() as int
    } else {
        spec_trimmed_len(s.drop_last())
    }
}

/// The text without the white space at its start and at its end.
pub open spec fn spec_trim(s: Seq<char>) -> Seq<char> {
    let kept = s.take(spec_trimmed_len(s));
    kept.skip(spec_leading_space(kept))
}

proof fn lemma_trimmed_len(s: Seq<char>, end: int)
    requires
        0 <= end <= s.len(),
        forall|i: int| end <= i < s.len() ==> spec_is_whitespace(#[trigger] s[i]),
        end > 0 ==> !spec_is_whitespace(s[end - 1]),
    ensures
        spec_trimmed_len(s) == end,
    decreases s.len(),
{
    if end < s.len() {
        let shorter = s.drop_last();
        assert(spec_is_whitespace(s[s.len() - 1]));
        assert forall|i: int| end <= i < shorter.len() implies spec_is_whitespace(
            #[trigger] shorter[i],
        ) by {
            assert(shorter[i] == s[i]);
        }
        lemma_trimmed_len(shorter, end);
    }
}

proof fn lemma_leading_space(s: Seq<char>, start: int)
    requires
        0 <= start <= s.len(),
        forall|i: int| 0 <= i < start ==> spec_is_whitespace(#[trigger] s[i]),
        start < s.len() ==> !spec_is_whitespace(s[start]),
    ensures
        spec_leading_space(s) == start,
    decreases s.len(),
{
    if start > 0 {
        let tail = s.drop_first();
        assert(spec_is_whitespace(s[0]));
        assert forall|i: int| 0 <= i < start - 1 implies spec_is_whitespace(#[trigger] tail[i]) by {
            assert(tail[i] == s[i + 1]);
        }
        lemma_leading_space(tail, start - 1);
    }
}

/// Cuts the white space off both ends of a text.
pub fn trim(s: &str) -> (r: String)
    ensures
        r@ == spec_trim(s@),
{
    let n = s.unicode_len();
    let mut end: usize = n;
    while end > 0 && is_whitespace(s.get_char(end - 1))
        invariant
            end <= n,
            n == s@.len(),
            forall|i: int| end <= i < n ==> spec_is_whitespace(#[trigger] s@[i]),
        decreases end,
    {
        end -= 1;
    }
    let mut start: usize = 0;
    while start < end && is_whitespace(s.get_char(start))
        invariant
            start <= end <= n,
            n == s@.len(),
            forall|i: int| 0 <= i < start ==> spec_is_whitespace(#[trigger] s@[i]),
        decreases end - start,
    {
        start += 1;
    }
    proof {
        lemma_trimmed_len(s@, end as int);
        let kept = s@.take(end as int);
        assert forall|i: int| 0 <= i < start implies spec_is_whitespace(#[trigger] kept[i]) by {
            assert(kept[i] == s@[i]);
        }
        lemma_leading_space(kept, start as int);
        assert(kept.skip(start as int) =~= s@.subrange(start as int, end as int));
    }
    s.substring_char(start, end).to_owned()
}

/// What a line of a compiler's list of included files says.
#[derive(Clone, Debug, PartialEq, Eq)]
pub enum TraceLine {
    /// The line names no included file.
    Other,
    /// The line starts as one that names an included file, and nothing but
    /// spaces follows.
    Blank,
    /// The path follows the colon at once: there is no depth to tell.
    Unindented,
    /// A file is included `indent` levels below the top, by this path.
    Included { indent: usize, path: String },
}

/// What a line says, as a mathematical value.
pub enum TraceLineView {
    Other,
    Blank,
    Unindented,
    Included { indent: int, path: Seq<char> },
}

impl View for TraceLine {
    type V = TraceLineView;

    open spec fn view(&self) -> TraceLineView {
        match self {
            TraceLine::Other => TraceLineView::Other,
            TraceLine::Blank => TraceLineView::Blank,
            TraceLine::Unindented => TraceLineView::Unindented,
            TraceLine::Included { indent, path } => TraceLineView::Included {
                indent: *indent as int,
                path: path@,
            },
        }
    }
}

/// What a line that names an included file starts with.
pub open spec fn spec_prefix() -> Seq<char> {
    "Note: including file:"@
}

/// The number of spaces that `s` starts with.
pub open spec fn spec_leading_blanks(s: Seq<char>) -> int
    decreases s.len(),
{
    if s.len() == 0 || s[0] != ' ' {
        0
    } else {
        1 + spec_leading_blanks(s.drop_first())
    }
}

proof fn lemma_leading_blanks(s: Seq<char>, start: int)
    requires
        0 <= start <= s.len(),
        forall|i: int| 0 <= i < start ==> #[trigger] s[i] == ' ',
        start < s.len() ==> s[start] != ' ',
    ensures
        spec_leading_blanks(s) == start,
    decreases s.len(),
{
    if start > 0 {
        let tail = s.drop_first();
        assert(s[0] == ' ');
        assert forall|i: int| 0 <= i < start - 1 implies #[trigger] tail[i] == ' ' by {
            assert(tail[i] == s[i + 1]);
        }
        lemma_leading_blanks(tail, start - 1);
    }
}

/// What a line says: behind the prefix of a line that names an included
/// file, each space but the first counts one level of depth, and the path is
/// what follows, without the white space around it.
pub open spec fn spec_parse_line(line: Seq<char>) -> TraceLineView {
    let prefix = spec_prefix();
    if line.len() < prefix.len() || line.take(prefix.len() as int) != prefix {
        TraceLineView::Other
    } else {
        let rest = line.skip(prefix.len() as int);
        let blanks = spec_leading_blanks(rest);
        if blanks == rest.len() {
            TraceLineView::Blank
        } else if blanks == 0 {
            TraceLineView::Unindented
        } else {
            TraceLineView::Included { indent: blanks - 1, path: spec_trim(rest) }
        }
    }
}

/// Reads one line of a compiler's list of included files.
pub fn parse_line(line: &str) -> (r: TraceLine)
    ensures
        r@ == spec_parse_line(line@),
{
    let prefix = "Note: including file:";
    let prefix_len = prefix.unicode_len();
    let n = line.unicode_len();
    if n < prefix_len {
        return TraceLine::Other;
    }
    let mut k: usize = 0;
    while k < prefix_len
        invariant
            k <= prefix_len <= n,
            n == line@.len(),
            prefix_len == prefix@.len(),
            prefix@ == spec_prefix(),
            forall|i: int| 0 <= i < k ==> #[trigger] line@[i] == prefix@[i],
        decreases prefix_len - k,
    {
        if line.get_char(k) != prefix.get_char(k) {
            proof {
                assert(line@.take(prefix_len as int)[k as int] != prefix@[k as int]);
            }
            return TraceLine::Other;
        }
        k += 1;
    }
    proof {
        assert(line@.take(prefix_len as int) =~= prefix@);
    }
    let rest = line.substring_char(prefix_len, n);
    let rest_len = n - prefix_len;
    let mut blanks: usize = 0;
    while blanks < rest_len && rest.get_char(blanks) == ' '
        invariant
            blanks <= rest_len,
            rest_len == rest@.len(),
            forall|i: int| 0 <= i < blanks ==> #[trigger] rest@[i] == ' ',
        decreases rest_len - blanks,
    {
        blanks += 1;
    }
    proof {
        assert(rest@ =~= line@.skip(prefix_len as int));
        lemma_leading_blanks(rest@, blanks as int);
    }
    if blanks == rest_len {
        TraceLine::Blank
    } else if blanks == 0 {
        TraceLine::Unindented
    } else {
        TraceLine::Included { indent: blanks - 1, path: trim(rest) }
    }
}

/// The paths by which the file seen last is included, as mathematical
/// values.
pub open spec fn paths_view(paths: Seq<String>) -> Seq<Seq<char>> {
    paths.map_values(|p: String| p@)
}

/// The paths seen last with one more taken note of: at its depth where a
/// path was seen there before, and at the end where none was.
pub open spec fn spec_record(last_seen: Seq<Seq<char>>, indent: int, path: Seq<char>) -> Seq<
    Seq<char>,
> {
    if indent >= last_seen.len() {
        last_seen.push(path)
    } else {
        last_seen.update(indent, path)
    }
}

/// Takes note of a path that was seen at the depth `indent`.
pub fn record_path(last_seen: &mut Vec<String>, indent: usize, path: String)
    ensures
        paths_view(final(last_seen)@) == spec_record(
            paths_view(old(last_seen)@),
            indent as int,
            path@,
        ),
{
    if indent >= last_seen.len() {
        last_seen.push(path);
        assert(paths_view(last_seen@) =~= paths_view(old(last_seen)@).push(path@));
    } else {
        last_seen[indent] = path;
        assert(paths_view(last_seen@) =~= paths_view(old(last_seen)@).update(
            indent as int,
            path@,
        ));
    }
}

/// As many spaces as `n` says.
pub open spec fn spec_spaces(n: nat) -> Seq<char> {
    Seq::new(n, |i: int| ' ')
}

/// The line that shows the path at depth `depth`: a space, four more for
/// each level, an arrow and the path.
pub open spec fn spec_chain_line(depth: nat, path: Seq<char>) -> Seq<char> {
    " "@ + spec_spaces(4 * depth) + "-> "@ + path
}

/// The lines that show by which paths the file at depth `indent` is
/// included: one for each depth down to it.
pub open spec fn spec_chain(last_seen: Seq<Seq<char>>, indent: int) -> Seq<Seq<char>> {
    Seq::new((indent + 1) as nat, |k: int| spec_chain_line(k as nat, last_seen[k]))
}

/// The lines as mathematical values.
pub open spec fn lines_view(lines: Seq<String>) -> Seq<Seq<char>> {
    lines.map_values(|l: String| l@)
}

/// Writes the line that shows the path at one depth.
fn chain_line(depth: usize, path: &str) -> (line: String)
    requires
        depth * 4 <= usize::MAX,
    ensures
        line@ == spec_chain_line(depth as nat, path@),
{
    let mut line = " ".to_owned();
    let mut i: usize = 0;
    let ghost start = line@;
    proof {
        assert(line@ =~= start + spec_spaces(0));
        reveal_strlit(" ");
    }
    while i < 4 * depth
        invariant
            i <= 4 * depth <= usize::MAX,
            line@ == start + spec_spaces(i as nat),
            " "@ == seq![' '],
        decreases 4 * depth - i,
    {
        line.append(" ");
        i += 1;
        assert(line@ =~= start + spec_spaces(i as nat));
    }
    line.append("-> ");
    line.append(path);
    line
}

/// Writes the lines that show by which paths the file at depth `indent` is
/// included.
pub fn include_chain(last_seen: &Vec<String>, indent: usize) -> (lines: Vec<String>)
    requires
        indent < last_seen@.len(),
        indent * 4 <= usize::MAX,
    ensures
        lines_view(lines@) == spec_chain(paths_view(last_seen@), indent as int),
{
    let mut lines: Vec<String> = Vec::new();
    let mut k: usize = 0;
    while k <= indent
        invariant
            k <= indent + 1,
            indent < last_seen@.len(),
            indent * 4 <= usize::MAX,
            lines@.len() == k,
            forall|j: int|
                0 <= j < k ==> (#[trigger] lines@[j])@ == spec_chain_line(
                    j as nat,
                    last_seen@[j]@,
                ),
        decreases indent + 1 - k,
    {
        let line = chain_line(k, last_seen[k].as_str());
        lines.push(line);
        k += 1;
    }
    proof {
        assert(lines_view(lines@) =~= spec_chain(paths_view(last_seen@), indent as int));
    }
    lines
}

} // verus!
