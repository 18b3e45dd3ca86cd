//! Matching file names against a query that holds some of their characters,
//! in order and case aside, and showing what matched.

use vstd::prelude::*;
use vstd::string::{StrSliceExecFns, StringExecFns, StringSliceAdditionalSpecFns};
use vstd::utf8::encode_utf8;
use colored::Colorize;

verus! {

/// The code of a character with upper-case ASCII letters made lower case.
pub open spec fn spec_fold(c: char) -> u32 {
    if 65 <= c as u32 <= 90 {
        (c as u32 + 32) as u32
    } else {
        c as u32
    }
}

/// Two characters are the same but for the case of ASCII letters.
pub open spec fn spec_eq_ignore_ascii_case(a: char, b: char) -> bool {
    spec_fold(a) == spec_fold(b)
}

/// Tells whether two characters are the same but for the case of ASCII
/// letters.
pub fn eq_ignore_ascii_case(a: char, b: char) -> (r: bool)
    ensures
        r == spec_eq_ignore_ascii_case(a, b),
{
    let x: u32 = a as u32;
    let y: u32 = b as u32;
    let fx: u32 = if 65 <= x && x <= 90 {
        x + 32
    } else {
        x
    };
    let fy: u32 = if 65 <= y && y <= 90 {
        y + 32
    } else {
        y
    };
    fx == fy
}

/// Two texts are the same but for the case of ASCII letters.
pub open spec fn spec_same_ignoring_case(a: Seq<char>, b: Seq<char>) -> bool {
    a.len() == b.len() && forall|i: int|
        0 <= i < a.len() ==> spec_eq_ignore_ascii_case(#[trigger] a[i], b[i])
}

/// Tells whether two texts are the same but for the case of ASCII letters.
pub fn same_ignoring_case(a: &str, b: &str) -> (r: bool)
    ensures
        r == spec_same_ignoring_case(a@, b@),
{
    let n = a.unicode_len();
    if n != b.unicode_len() {
        return false;
    }
    let mut i: usize = 0;
    while i < n
        invariant
            i <= n,
            n == a@.len(),
            n == b@.len(),
            forall|j: int| 0 <= j < i ==> spec_eq_ignore_ascii_case(#[trigger] a@[j], b@[j]),
        decreases n - i,
    {
        if !eq_ignore_ascii_case(a.get_char(i), b.get_char(i)) {
            return false;
        }
        i += 1;
    }
    true
}

/// The index of the first character of `hay` that is `needle` but for case.
pub open spec fn spec_find(hay: Seq<char>, needle: char) -> Option<int>
    decreases hay.len(),
{
    if hay.len() == 0 {
        None
    } else if spec_eq_ignore_ascii_case(hay[0], needle) {
        Some(0int)
    } else {
        match spec_find(hay.drop_first(), needle) {
            Some(i) => Some(i + 1),
            None => None,
        }
    }
}

/// `spec_find` gives the least index that matches, and nothing only where no
/// index matches.
pub proof fn lemma_find(hay: Seq<char>, needle: char)
    ensures
        match spec_find(hay, needle) {
            Some(i) => 0 <= i < hay.len() && spec_eq_ignore_ascii_case(hay[i], needle) && forall|
                j: int,
            |
                0 <= j < i ==> !spec_eq_ignore_ascii_case(#[trigger] hay[j], needle),
            None => forall|j: int|
                0 <= j < hay.len() ==> !spec_eq_ignore_ascii_case(#[trigger] hay[j], needle),
        },
    decreases hay.len(),
{
    if hay.len() == 0 {
    } else if spec_eq_ignore_ascii_case(hay[0], needle) {
    } else {
        let tail = hay.drop_first();
        lemma_find(tail, needle);
        match spec_find(tail, needle) {
            Some(i) => {
                assert(hay[i + 1] == tail[i]);
                assert forall|j: int| 0 <= j < i + 1 implies !spec_eq_ignore_ascii_case(
                    #[trigger] hay[j],
                    needle,
                ) by {
                    if j > 0 {
                        assert(hay[j] == tail[j - 1]);
                    }
                }
            },
            None => {
                assert forall|j: int| 0 <= j < hay.len() implies !spec_eq_ignore_ascii_case(
                    #[trigger] hay[j],
                    needle,
                ) by {
                    if j > 0 {
                        assert(hay[j] == tail[j - 1]);
                    }
                }
            },
        }
    }
}

/// Finds the first character of `haystack` that is `needle` but for the case
/// of ASCII letters, and returns its index, counted in characters.
pub fn find_ignore_ascii_case(haystack: &str, needle: &char) -> (r: Option<usize>)
    ensures
        match r {
            Some(i) => spec_find(haystack@, *needle) == Some(i as int),
            None => spec_find(haystack@, *needle).is_none(),
        },
{
    let n = haystack.unicode_len();
    let mut i: usize = 0;
    while i < n
        invariant
            i <= n,
            n == haystack@.len(),
            forall|j: int|
                0 <= j < i ==> !spec_eq_ignore_ascii_case(#[trigger] haystack@[j], *needle),
        decreases n - i,
    {
        if eq_ignore_ascii_case(haystack.get_char(i), *needle) {
            proof {
                lemma_find(haystack@, *needle);
                let first = spec_find(haystack@, *needle)->Some_0;
                if first < i {
                    assert(!spec_eq_ignore_ascii_case(haystack@[first], *needle));
                }
            }
            return Some(i);
        }
        i += 1;
    }
    proof {
        lemma_find(haystack@, *needle);
        if spec_find(haystack@, *needle) is Some {
            let first = spec_find(haystack@, *needle)->Some_0;
            assert(!spec_eq_ignore_ascii_case(haystack@[first], *needle));
        }
    }
    None
}

/// Whether the characters of `query` are found in `filename` in this order,
/// the search for each starting at the match of the one before it.
pub open spec fn spec_matches_from(query: Seq<char>, filename: Seq<char>, start: int) -> bool
    decreases query.len(),
{
    query.len() == 0 || match spec_find(filename.skip(start), query[0]) {
        None => false,
        Some(idx) => spec_matches_from(query.drop_first(), filename, start + idx),
    }
}

/// Whether a file name matches a query: it has no fewer bytes than the
/// query, and holds the query's characters in the query's order, case
/// aside.
pub open spec fn spec_filename_matches(query: Seq<char>, filename: Seq<char>) -> bool {
    filename.len() >= encode_utf8(query).len() && spec_matches_from(query, filename, 0)
}

/// Tells whether an ASCII file name matches a query.
pub fn include_filename_matches(query: &str, filename: &str) -> (r: bool)
    requires
        filename.is_ascii(),
    ensures
        r == spec_filename_matches(query@, filename@),
{
    broadcast use vstd::string::is_ascii_spec_bytes;

    assert(filename.spec_bytes().len() == filename@.len());
    if filename.as_bytes().len() < query.as_bytes().len() {
        return false;
    }
    let n = query.unicode_len();
    let len = filename.unicode_len();
    let mut current_index: usize = 0;
    let mut k: usize = 0;
    proof {
        assert(query@.skip(0) =~= query@);
    }
    while k < n
        invariant
            k <= n,
            n == query@.len(),
            len == filename@.len(),
            filename.is_ascii(),
            current_index <= len,
            filename@.len() >= encode_utf8(query@).len(),
            spec_matches_from(query@, filename@, 0) == spec_matches_from(
                query@.skip(k as int),
                filename@,
                current_index as int,
            ),
        decreases n - k,
    {
        let c = query.get_char(k);
        let rest = filename.substring_ascii(current_index, len);
        proof {
            assert(query@.skip(k as int).drop_first() =~= query@.skip(k + 1));
            assert(rest@ =~= filename@.skip(current_index as int));
            lemma_find(rest@, c);
        }
        match find_ignore_ascii_case(rest, &c) {
            Some(idx) => {
                current_index += idx;
            },
            None => {
                return false;
            },
        }
        k += 1;
    }
    true
}

/// Where the search goes on behind the matches in `marks`.
pub open spec fn spec_resume(marks: Seq<int>) -> int {
    if marks.len() == 0 {
        0
    } else {
        marks.last() + 1
    }
}

/// The places in `filename` of the characters that a query highlights: each
/// character of the query, in order, marks the first place behind the mark
/// before it that holds it, case aside. With the first character that is not
/// found, or once the file name is used up, the marking stops.
pub open spec fn spec_marks(query: Seq<char>, filename: Seq<char>) -> Seq<int>
    decreases query.len(),
{
    if query.len() == 0 {
        Seq::empty()
    } else {
        let before = spec_marks(query.drop_last(), filename);
        let start = spec_resume(before);
        if before.len() < query.len() - 1 || start >= filename.len() {
            before
        } else {
            match spec_find(filename.skip(start), query.last()) {
                None => before,
                Some(idx) => before.push(start + idx),
            }
        }
    }
}

/// A text in cyan: between the escape sequence that sets the colour and the
/// one that resets it.
pub open spec fn spec_cyan(text: Seq<char>) -> Seq<char> {
    "\x1B[36m"@ + text + "\x1B[0m"@
}

/// A text, in cyan or as it is.
pub open spec fn spec_paint(text: Seq<char>, coloured: bool) -> Seq<char> {
    if coloured {
        spec_cyan(text)
    } else {
        text
    }
}

/// The file name up to its last mark, each marked character painted as
/// `wraps` says.
pub open spec fn spec_paint_marks(filename: Seq<char>, marks: Seq<int>, wraps: Seq<bool>) -> Seq<
    char,
>
    decreases marks.len(),
{
    if marks.len() == 0 || wraps.len() == 0 {
        Seq::empty()
    } else {
        spec_paint_marks(filename, marks.drop_last(), wraps.drop_last()) + filename.subrange(
            spec_resume(marks.drop_last()),
            marks.last(),
        ) + spec_paint(filename.subrange(marks.last(), marks.last() + 1), wraps.last())
    }
}

/// The file name with each marked character painted as `wraps` says.
pub open spec fn spec_highlight(filename: Seq<char>, marks: Seq<int>, wraps: Seq<bool>) -> Seq<
    char,
> {
    spec_paint_marks(filename, marks, wraps) + (if spec_resume(marks) < filename.len() {
        filename.skip(spec_resume(marks))
    } else {
        Seq::empty()
    })
}

/// `colored::Colorize::cyan` on a text too short to hold a reset sequence,
/// written out with `to_string`: the text between the escape sequences for
/// cyan and for reset, or the text as it is where colours are switched off.
#[verifier::external_body]
fn cyan(text: &str) -> (r: String)
    requires
        text@.len() < 4,
    ensures
        r@ == text@ || r@ == spec_cyan(text@),
{
    text.cyan().to_string()
}

/// Once the marking has stopped within a prefix of the query, the rest of the
/// query adds nothing.
proof fn lemma_marks_stopped(query: Seq<char>, filename: Seq<char>, k: int)
    requires
        0 <= k <= query.len(),
        spec_marks(query.take(k), filename).len() < k || spec_resume(
            spec_marks(query.take(k), filename),
        ) >= filename.len(),
    ensures
        spec_marks(query, filename) == spec_marks(query.take(k), filename),
    decreases query.len() - k,
{
    if k < query.len() {
        assert(query.take(k + 1).drop_last() =~= query.take(k));
        lemma_marks_stopped(query, filename, k + 1);
    } else {
        assert(query.take(k) =~= query);
    }
}

/// Shows an ASCII file name with the characters that the query matched in
/// cyan, where colours are switched on.
///
/// The characters of the query are looked for in order, each behind the
/// match of the one before; with the first that is not found the search
/// ends, and the rest of the file name follows as it is.
pub fn format_matched_filename(query: &str, filename: &str) -> (r: String)
    requires
        filename.is_ascii(),
    ensures
        exists|wraps: Seq<bool>|
            wraps.len() == spec_marks(query@, filename@).len() && r@ == #[trigger] spec_highlight(
                filename@,
                spec_marks(query@, filename@),
                wraps,
            ),
{
    let mut result = String::new();
    let n = query.unicode_len();
    let len = filename.unicode_len();
    let mut current_index: usize = 0;
    let mut k: usize = 0;
    let ghost mut marks: Seq<int> = Seq::empty();
    let ghost mut wraps: Seq<bool> = Seq::empty();
    let ghost mut stopped = false;
    proof {
        assert(query@.take(0) =~= Seq::<char>::empty());
        if n == 0 {
            assert(query@ =~= Seq::<char>::empty());
        }
    }
    while k < n
        invariant_except_break
            marks == spec_marks(query@.take(k as int), filename@),
            marks.len() == k,
            k == n ==> marks == spec_marks(query@, filename@),
        invariant
            k <= n,
            n == query@.len(),
            len == filename@.len(),
            filename.is_ascii(),
            current_index <= len,
            current_index == spec_resume(marks),
            wraps.len() == marks.len(),
            result@ == spec_paint_marks(filename@, marks, wraps),
        ensures
            marks == spec_marks(query@, filename@),
        decreases n - k,
    {
        proof {
            assert(query@.take(k + 1).drop_last() =~= query@.take(k as int));
            assert(query@.take(k + 1).last() == query@[k as int]);
        }
        if current_index >= len {
            proof {
                lemma_marks_stopped(query@, filename@, k as int);
            }
            break ;
        }
        let c = query.get_char(k);
        let rest = filename.substring_ascii(current_index, len);
        proof {
            assert(rest@ =~= filename@.skip(current_index as int));
            lemma_find(rest@, c);
        }
        match find_ignore_ascii_case(rest, &c) {
            Some(idx) => {
                let plain = filename.substring_ascii(current_index, current_index + idx);
                result.append(plain);
                let found = filename.substring_ascii(
                    current_index + idx,
                    current_index + idx + 1,
                );
                let coloured = cyan(found);
                result.append(coloured.as_str());
                proof {
                    let flag = coloured@ != found@;
                    let grown = marks.push(current_index + idx);
                    assert(grown.drop_last() =~= marks);
                    assert(wraps.push(flag).drop_last() =~= wraps);
                    marks = grown;
                    wraps = wraps.push(flag);
                    if k + 1 == n {
                        assert(query@.take(k + 1) =~= query@);
                    }
                }
                current_index += idx + 1;
            },
            None => {
                proof {
                    assert(spec_marks(query@.take(k + 1), filename@) == marks);
                    lemma_marks_stopped(query@, filename@, k + 1);
                }
                break ;
            },
        }
        k += 1;
    }
    if current_index < len {
        result.append(filename.substring_ascii(current_index, len));
    } else {
        proof {
            assert(result@ + Seq::<char>::empty() =~= result@);
        }
    }
    proof {
        assert(result@ == spec_highlight(filename@, marks, wraps));
    }
    result
}

} // verus!
