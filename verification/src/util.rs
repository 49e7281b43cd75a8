//! Helpers shared by the stages: file-name arithmetic, the outcome
//! classification of an external invocation, and the parsing of the
//! page-count report of the PDF information tool.

use crate::command::{push_string_arg, Invocation};
use crate::error::{ErrorKind, ErrorMessage};
use crate::paths::{
    file_name_of, find_first_dot, find_name_start, first_dot, joined, lemma_first_dot_bounds,
    lemma_name_start_bounds, name_start,
};
use crate::run::{start_pdf, Run};
use crate::text::{all_digits, char_digit, dec_val, is_digit, parse_u64};
use vstd::prelude::*;
use vstd::string::*;

verus! {

/// The stem of the path's file name: everything after the last separator
/// and before the first dot.
pub open spec fn file_stem_of(s: Seq<char>) -> Seq<char> {
    let name = file_name_of(s);
    name.subrange(0, first_dot(name))
}

/// A file stem is cut at the first dot, so it holds none itself.
pub proof fn lemma_file_stem_dotless(s: Seq<char>)
    ensures
        forall|j: int| 0 <= j < file_stem_of(s).len() ==> #[trigger] file_stem_of(s)[j] != '.',
{
    let name = file_name_of(s);
    lemma_first_dot_bounds(name);
    lemma_name_start_bounds(s);
    assert forall|j: int| 0 <= j < file_stem_of(s).len() implies #[trigger] file_stem_of(s)[j]
        != '.' by {
        assert(file_stem_of(s)[j] == name[j]);
    }
}

/// Returns the filename (without any extension) of a path.
pub fn file_name(path: &str) -> (r: String)
    ensures
        r@ == file_stem_of(path@),
{
    let len = path.unicode_len();
    let ns = find_name_start(path);
    proof {
        lemma_name_start_bounds(path@);
    }
    let name = path.substring_char(ns, len);
    let fd = find_first_dot(name);
    proof {
        lemma_first_dot_bounds(name@);
    }
    name.substring_char(0, fd).to_owned()
}

/// Classifies the outcome of an external invocation that ran to
/// completion: exit status zero is success, anything else carries the
/// captured output as an [`ErrorKind::ExternalToolFailed`] error.
pub fn command_outcome(
    success: bool,
    stdout: &str,
    stderr: &str,
    cmd_name: &str,
) -> (r: Result<(), ErrorMessage>)
    ensures
        r is Ok <==> success,
        r is Err ==> r->Err_0.kind == ErrorKind::ExternalToolFailed,
        r is Err ==> r->Err_0.message@ == "Execution of "@ + cmd_name@ + " failed "@ + stdout@
            + " "@ + stderr@,
{
    if success {
        Ok(())
    } else {
        let mut m = String::from_str("Execution of ");
        m.append(cmd_name);
        m.append(" failed ");
        m.append(stdout);
        m.append(" ");
        m.append(stderr);
        Err(ErrorMessage::new(ErrorKind::ExternalToolFailed, m))
    }
}

/// The error for an invocation whose process could not be started at
/// all: a missing binary is distinguished from every other spawn
/// failure, so the caller can suggest installing the tool or overriding
/// its name.  Any other spawn failure names the binary and carries the
/// cause the operating system reported.
pub fn spawn_error(cmd_name: &str, not_found: bool, cause: &str) -> (r: ErrorMessage)
    ensures
        not_found ==> r.kind == ErrorKind::ExecutableNotFound && r.message@ == "couldn't find the "@
            + cmd_name@ + " binary on your system"@,
        !not_found ==> r.kind == ErrorKind::SpawnFailed && r.message@ == "Failed to call "@
            + cmd_name@ + ", "@ + cause@,
{
    if not_found {
        let mut m = String::from_str("couldn't find the ");
        m.append(cmd_name);
        m.append(" binary on your system");
        ErrorMessage::new(ErrorKind::ExecutableNotFound, m)
    } else {
        let mut m = String::from_str("Failed to call ");
        m.append(cmd_name);
        m.append(", ");
        m.append(cause);
        ErrorMessage::new(ErrorKind::SpawnFailed, m)
    }
}

/// Reclassifies a failure of the page-count query: when the information
/// tool is absent from the search path the page count is unavailable,
/// which is its own failure class; any other failure keeps its class.
pub fn page_count_query_error(e: ErrorMessage) -> (r: ErrorMessage)
    ensures
        e.kind == ErrorKind::ExecutableNotFound ==> r.kind == ErrorKind::PageCountUnavailable,
        e.kind != ErrorKind::ExecutableNotFound ==> r.kind == e.kind,
        r.message@ == e.message@,
{
    if matches!(e.kind, ErrorKind::ExecutableNotFound) {
        ErrorMessage::new(ErrorKind::PageCountUnavailable, e.message)
    } else {
        e
    }
}

/// Builds the page-count query: the PDF information tool over the copied
/// source document.
pub fn pdfinfo_invocation(run: &Run) -> (r: Invocation)
    ensures
        r.binary@ == "pdfinfo"@,
        r.args@.len() == 1,
        r.args@[0]@ == joined(run.folder@, "input.pdf"@),
{
    let mut args: Vec<String> = Vec::new();
    let ghost empty = args.deep_view();
    push_string_arg(&mut args, run.prepend_with_temp_folder(start_pdf()));
    proof {
        assert(empty.len() == 0);
        assert(args.deep_view().len() == args@.len());
        assert(args.deep_view()[0] == args@[0]@);
        assert(args@[0]@ == joined(run.folder@, "input.pdf"@));
    }
    Invocation { binary: String::from_str("pdfinfo"), args }
}

/// Holds when the page-count marker `Pages:` stands at position `i` of
/// the report.
pub open spec fn pages_at(s: Seq<char>, i: int) -> bool {
    0 <= i && i + 6 <= s.len() && s.subrange(i, i + 6) == "Pages:"@
}

/// The position of the first page-count marker, or the length of the
/// report when it holds none.
pub open spec fn first_pages(s: Seq<char>) -> int
    decreases s.len(),
{
    if pages_at(s, 0) {
        0
    } else if s.len() == 0 {
        0
    } else {
        1 + first_pages(s.drop_first())
    }
}

/// The ASCII whitespace the report may hold between the marker and the
/// number.
pub open spec fn is_space(c: char) -> bool {
    c == ' ' || c == '\t' || c == '\r' || c == '\n'
}

/// The position of the first non-whitespace character at or after `i`.
pub open spec fn skip_spaces(s: Seq<char>, i: int) -> int
    recommends
        0 <= i <= s.len(),
    decreases s.len() - i when 0 <= i <= s.len()
{
    if 0 <= i < s.len() && is_space(s[i]) {
        skip_spaces(s, i + 1)
    } else {
        i
    }
}

/// The position of the first non-digit character at or after `i`.
pub open spec fn skip_digits(s: Seq<char>, i: int) -> int
    recommends
        0 <= i <= s.len(),
    decreases s.len() - i when 0 <= i <= s.len()
{
    if 0 <= i < s.len() && is_digit(s[i]) {
        skip_digits(s, i + 1)
    } else {
        i
    }
}

/// The page count the report announces: the run of digits that follows
/// the first `Pages:` marker after optional whitespace.  `None` when the
/// marker is absent or no digit follows it.
pub open spec fn page_count_spec(s: Seq<char>) -> Option<nat> {
    let i = first_pages(s);
    if !pages_at(s, i) {
        None
    } else {
        let w = skip_spaces(s, i + 6);
        let d = skip_digits(s, w);
        if d == w {
            None
        } else {
            Some(dec_val(s.subrange(w, d)))
        }
    }
}

proof fn lemma_first_pages_bounds(s: Seq<char>)
    ensures
        0 <= first_pages(s) <= s.len(),
    decreases s.len(),
{
    if !pages_at(s, 0) && s.len() > 0 {
        lemma_first_pages_bounds(s.drop_first());
    }
}

proof fn lemma_pages_at_shift(s: Seq<char>, i: int)
    requires
        s.len() > 0,
        0 <= i,
    ensures
        pages_at(s, i + 1) == pages_at(s.drop_first(), i),
{
    if i + 7 <= s.len() {
        assert(s.subrange(i + 1, i + 7) =~= s.drop_first().subrange(i, i + 6));
    }
}

proof fn lemma_first_pages_at(s: Seq<char>, k: int)
    requires
        0 <= k <= s.len(),
        forall|j: int| 0 <= j < k ==> !pages_at(s, j),
        k < s.len() ==> pages_at(s, k),
    ensures
        k < s.len() ==> first_pages(s) == k,
        k == s.len() && !pages_at(s, k) ==> first_pages(s) == s.len(),
    decreases k,
{
    if s.len() == 0 {
    } else if k == 0 {
    } else {
        assert(!pages_at(s, 0));
        assert forall|j: int| 0 <= j < k - 1 implies !pages_at(s.drop_first(), j) by {
            lemma_pages_at_shift(s, j);
        }
        if k - 1 < s.drop_first().len() {
            lemma_pages_at_shift(s, k - 1);
        }
        lemma_first_pages_at(s.drop_first(), k - 1);
        if k == s.len() && !pages_at(s, k) {
            assert(first_pages(s) == 1 + first_pages(s.drop_first()));
        }
    }
}

/// Whether the character at position `i` is whitespace.
fn space_at(s: &str, i: usize) -> (r: bool)
    requires
        i < s@.len(),
    ensures
        r == is_space(s@[i as int]),
{
    let c = s.get_char(i);
    c == ' ' || c == '\t' || c == '\r' || c == '\n'
}

/// Whether the character at position `i` is a decimal digit.
fn digit_at(s: &str, i: usize) -> (r: bool)
    requires
        i < s@.len(),
    ensures
        r == is_digit(s@[i as int]),
{
    char_digit(s.get_char(i)).is_some()
}

/// Whether the page-count marker stands at position `i`.
fn pages_match(s: &str, i: usize) -> (r: bool)
    requires
        i + 6 <= s@.len(),
        i <= usize::MAX - 6,
    ensures
        r == pages_at(s@, i as int),
{
    let r = s.get_char(i) == 'P' && s.get_char(i + 1) == 'a' && s.get_char(i + 2) == 'g'
        && s.get_char(i + 3) == 'e' && s.get_char(i + 4) == 's' && s.get_char(i + 5) == ':';
    proof {
        reveal_strlit("Pages:");
        if r {
            assert(s@.subrange(i as int, i + 6) =~= "Pages:"@);
        } else {
            assert(s@.subrange(i as int, i + 6) != "Pages:"@) by {
                if s@.subrange(i as int, i + 6) == "Pages:"@ {
                    assert(s@[i as int] == "Pages:"@[0]);
                    assert(s@[i + 1] == "Pages:"@[1]);
                    assert(s@[i + 2] == "Pages:"@[2]);
                    assert(s@[i + 3] == "Pages:"@[3]);
                    assert(s@[i + 4] == "Pages:"@[4]);
                    assert(s@[i + 5] == "Pages:"@[5]);
                }
            }
        }
    }
    r
}

/// Determines the number of pages the given report of the PDF
/// information tool announces.  Fails when the report holds no
/// `Pages:` marker followed by a number, or when that number does not
/// fit in sixty-four bits.
pub fn count_pdf_pages(output: &str) -> (r: Result<u64, ErrorMessage>)
    ensures
        r is Ok <==> (page_count_spec(output@) matches Some(v) && v <= u64::MAX),
        r matches Ok(n) ==> page_count_spec(output@) == Some(n as nat),
        r is Err ==> r->Err_0.kind == ErrorKind::PageCountUnavailable,
{
    let len = output.unicode_len();
    let mut i: usize = 0;
    let mut found = false;
    #[verifier::loop_isolation(false)]
    while !found && len >= 6 && i <= len - 6
        invariant
            i <= len,
            forall|j: int| 0 <= j < i ==> !pages_at(output@, j),
            found ==> i + 6 <= len && pages_at(output@, i as int),
        decreases len - i + (if found {
            0int
        } else {
            1int
        }),
    {
        if pages_match(output, i) {
            found = true;
        } else {
            i += 1;
        }
    }
    if !found {
        proof {
            assert forall|j: int| 0 <= j < output@.len() implies !pages_at(output@, j) by {
                if j >= i {
                    assert(j + 6 > output@.len());
                }
            }
            lemma_first_pages_at(output@, len as int);
            lemma_first_pages_bounds(output@);
        }
        let m = String::from_str("Couldn't find number of pages in pdfinfo output");
        return Err(ErrorMessage::new(ErrorKind::PageCountUnavailable, m));
    }
    proof {
        lemma_first_pages_at(output@, i as int);
    }
    let mut w = i + 6;
    #[verifier::loop_isolation(false)]
    while w < len && space_at(output, w)
        invariant
            i + 6 <= w <= len,
            skip_spaces(output@, i + 6) == skip_spaces(output@, w as int),
        decreases len - w,
    {
        w += 1;
    }
    proof {
        assert(skip_spaces(output@, w as int) == w as int);
    }
    let mut d = w;
    #[verifier::loop_isolation(false)]
    while d < len && digit_at(output, d)
        invariant
            w <= d <= len,
            skip_digits(output@, w as int) == skip_digits(output@, d as int),
            forall|j: int| w <= j < d ==> is_digit(#[trigger] output@[j]),
        decreases len - d,
    {
        d += 1;
    }
    proof {
        assert(skip_digits(output@, d as int) == d as int);
    }
    if d == w {
        let m = String::from_str("Couldn't find number of pages in pdfinfo output");
        return Err(ErrorMessage::new(ErrorKind::PageCountUnavailable, m));
    }
    let digits = output.substring_char(w, d);
    proof {
        assert(all_digits(digits@));
    }
    match parse_u64(digits) {
        Some(n) => Ok(n),
        None => {
            let m = String::from_str("Number of pages in pdfinfo output is out of range");
            Err(ErrorMessage::new(ErrorKind::PageCountUnavailable, m))
        },
    }
}

} // verus!
