//! The workspace of one conversion run.
//!
//! A [`Run`] records the absolute path of the source document, the
//! optional output path the caller asked for, the private temporary
//! folder in which every stage places its files, and the image format
//! chosen for the intermediate page images.  All naming decisions of the
//! pipeline go through it; the filesystem itself is touched only by the
//! surrounding binary.

use crate::error::{ErrorKind, ErrorMessage};
use crate::paths::{
    extension, extension_of, find_after_last_dot, find_first_dot, find_name_start, first_dot,
    join_path, joined, lemma_after_last_dot_bounds, lemma_first_dot_bounds,
    lemma_name_start_bounds, lemma_with_extension_dotless, name_start, with_extension,
};
use crate::text::{has_prefix, str_has_prefix};
use vstd::prelude::*;
use vstd::string::*;

verus! {

/// Name under which the source document is copied into the temporary
/// folder.
pub fn start_pdf() -> (r: &'static str)
    ensures
        r@ == "input.pdf"@,
{
    "input.pdf"
}

/// The image formats used for the intermediate page images.
#[derive(Debug, Clone, Copy, PartialEq, Eq, Structural)]
pub enum Format {
    /// Color images, PBM.
    Bitmap,
    /// Gray images, PGM.
    Graymap,
    /// Black-and-white images, PPM.
    Pixmap,
    /// TIFF, the fixed input format of the OCR engine.
    Tiff,
}

/// The format chosen for the given color switches: gray wins over color,
/// and both switches off or both on fall back to the default.
pub open spec fn format_from_spec(use_gray: bool, use_rgb: bool) -> Format {
    if use_gray && !use_rgb {
        Format::Graymap
    } else if !use_gray && use_rgb {
        Format::Pixmap
    } else {
        Format::Bitmap
    }
}

/// The file extension belonging to each format.
pub open spec fn extension_spec(f: Format) -> Seq<char> {
    match f {
        Format::Bitmap => "pbm"@,
        Format::Graymap => "pgm"@,
        Format::Pixmap => "ppm"@,
        Format::Tiff => "tiff"@,
    }
}

impl Format {
    /// Returns the image format selected by the two color switches.
    pub fn from(use_gray: bool, use_rgb: bool) -> (r: Self)
        ensures
            r == format_from_spec(use_gray, use_rgb),
    {
        match (use_gray, use_rgb) {
            (true, false) => Format::Graymap,
            (false, true) => Format::Pixmap,
            (_, _) => Format::Bitmap,
        }
    }

    /// Returns the file extension for the format.
    pub fn extension(self) -> (r: &'static str)
        ensures
            r@ == extension_spec(self),
    {
        match self {
            Format::Bitmap => "pbm",
            Format::Graymap => "pgm",
            Format::Pixmap => "ppm",
            Format::Tiff => "tiff",
        }
    }
}

/// Holds of a three-letter extension spelling `pdf` in any mixture of
/// upper and lower case.
pub open spec fn is_pdf_extension(e: Seq<char>) -> bool {
    e.len() == 3 && (e[0] == 'p' || e[0] == 'P') && (e[1] == 'd' || e[1] == 'D') && (e[2] == 'f'
        || e[2] == 'F')
}

/// A source path is accepted when the file exists and its extension says
/// it is a PDF document.
pub open spec fn valid_source(s: Seq<char>, exists: bool) -> bool {
    exists && match extension_of(s) {
        Some(e) => is_pdf_extension(e),
        None => false,
    }
}

/// Checks that the source document exists and is a PDF file.  The caller
/// reports through `exists` whether the path refers to an existing file.
pub fn validate_input_file(file: &str, exists: bool) -> (r: Result<(), ErrorMessage>)
    ensures
        r is Ok <==> valid_source(file@, exists),
        r is Err ==> r->Err_0.kind == ErrorKind::InvalidInput,
{
    if !exists {
        let mut m = String::from_str("Given input file ");
        m.append(file);
        m.append(" doesn't exist");
        return Err(ErrorMessage::new(ErrorKind::InvalidInput, m));
    }
    let ext = match extension(file) {
        Some(e) => e,
        None => {
            let mut m = String::from_str("Given input file ");
            m.append(file);
            m.append(" isn't a PDF file");
            return Err(ErrorMessage::new(ErrorKind::InvalidInput, m));
        },
    };
    let el = ext.as_str().unicode_len();
    let ok = el == 3 && {
        let c0 = ext.as_str().get_char(0);
        let c1 = ext.as_str().get_char(1);
        let c2 = ext.as_str().get_char(2);
        (c0 == 'p' || c0 == 'P') && (c1 == 'd' || c1 == 'D') && (c2 == 'f' || c2 == 'F')
    };
    if ok {
        Ok(())
    } else {
        let mut m = String::from_str("Given input file ");
        m.append(file);
        m.append(" isn't a PDF file");
        Err(ErrorMessage::new(ErrorKind::InvalidInput, m))
    }
}

/// The state of one conversion run: the validated source path, the
/// requested output path, the temporary folder and the chosen image
/// format.
#[derive(Debug)]
pub struct Run {
    /// Absolute path to the input file.
    pub input: String,
    /// Absolute path to the output file, when the caller supplied one.
    pub output: Option<String>,
    /// Path of the temporary folder where the conversion happens.
    pub folder: String,
    /// Whether to pause between the steps for manual inspection.
    pub do_step: bool,
    /// Image file format used internally.
    pub format: Format,
}

impl Run {
    /// A run is well formed once its input path has passed validation:
    /// the path carries a PDF extension.
    pub open spec fn wf(self) -> bool {
        match extension_of(self.input@) {
            Some(e) => is_pdf_extension(e),
            None => false,
        }
    }

    /// Builds the run state from the already expanded input and output
    /// paths, the caller's report on whether the input exists, and the
    /// path of the freshly created temporary folder.  Fails exactly when
    /// the source document is missing or is not a PDF file.
    pub fn new(
        input: String,
        output: Option<String>,
        use_gray: bool,
        use_rgb: bool,
        do_step: bool,
        input_exists: bool,
        folder: String,
    ) -> (r: Result<Run, ErrorMessage>)
        ensures
            r is Ok <==> valid_source(input@, input_exists),
            r matches Ok(run) ==> run.input == input && run.output == output && run.folder
                == folder && run.do_step == do_step && run.format == format_from_spec(
                use_gray,
                use_rgb,
            ) && run.wf(),
            r is Err ==> r->Err_0.kind == ErrorKind::InvalidInput,
    {
        match validate_input_file(input.as_str(), input_exists) {
            Ok(()) => Ok(Run {
                input,
                output,
                folder,
                do_step,
                format: Format::from(use_gray, use_rgb),
            }),
            Err(e) => Err(e),
        }
    }

    /// Returns the path to the temporary folder with the given name
    /// appended.
    pub fn prepend_with_temp_folder(&self, path: &str) -> (r: String)
        ensures
            r@ == joined(self.folder@, path@),
    {
        join_path(self.folder.as_str(), path)
    }

    /// Joins the temporary folder path with the given filename and sets
    /// the filename's extension; `None` selects the extension of the
    /// run's image format.  An existing extension of the filename is
    /// replaced; a filename without one — the dot-free stems every stage
    /// builds — gains the extension after a new dot.
    pub fn build_path(&self, filename: &str, ext: Option<&str>) -> (r: String)
        ensures
            r@ == joined(
                self.folder@,
                with_extension(
                    filename@,
                    match ext {
                        Some(e) => e@,
                        None => extension_spec(self.format),
                    },
                ),
            ),
            (forall|j: int| 0 <= j < filename@.len() ==> filename@[j] != '.') ==> r@ == joined(
                self.folder@,
                filename@,
            ) + seq!['.'] + (match ext {
                Some(e) => e@,
                None => extension_spec(self.format),
            }),
    {
        let e = match ext {
            Some(x) => x,
            None => self.format.extension(),
        };
        let len = filename.unicode_len();
        let ns = find_name_start(filename);
        proof {
            lemma_name_start_bounds(filename@);
        }
        let name = filename.substring_char(ns, len);
        let k = find_after_last_dot(name);
        proof {
            lemma_after_last_dot_bounds(name@);
        }
        let mut r: String;
        if k <= 1 {
            r = join_path(self.folder.as_str(), filename);
            r.append(".");
            r.append(e);
            proof {
                reveal_strlit(".");
                assert(r@ =~= joined(self.folder@, with_extension(filename@, e@)));
            }
        } else {
            proof {
                assert(ns + k <= len);
            }
            let kept = filename.substring_char(0, ns + k);
            r = join_path(self.folder.as_str(), kept);
            r.append(e);
            proof {
                assert(r@ =~= joined(self.folder@, with_extension(filename@, e@)));
            }
        }
        proof {
            if forall|j: int| 0 <= j < filename@.len() ==> filename@[j] != '.' {
                lemma_with_extension_dotless(filename@, e@);
                assert(joined(self.folder@, with_extension(filename@, e@)) =~= joined(
                    self.folder@,
                    filename@,
                ) + seq!['.'] + e@);
            }
        }
        r
    }
}

/// The output path derived from the input path when the caller supplies
/// none: the same directory, the stem of the file name with `-ironed`
/// appended, and the remainder of the name after its first dot.
pub open spec fn derived_output(input: Seq<char>) -> Seq<char> {
    let ns = name_start(input);
    let name = input.subrange(ns, input.len() as int);
    let fd = first_dot(name);
    let stem = name.subrange(0, fd);
    let rest = if fd < name.len() {
        name.subrange(fd + 1, name.len() as int)
    } else {
        Seq::empty()
    };
    input.subrange(0, ns) + stem + "-ironed."@ + rest
}

/// What `Run::output_path` returns: the caller's path verbatim when one
/// was given, the derived default otherwise.
pub open spec fn output_path_spec(r: Run) -> Seq<char> {
    match r.output {
        Some(p) => p@,
        None => derived_output(r.input@),
    }
}

/// The file names of `entries` that start with `prefix`, kept in their
/// given order.
pub open spec fn query_spec(entries: Seq<Seq<char>>, prefix: Seq<char>) -> Seq<Seq<char>>
    decreases entries.len(),
{
    if entries.len() == 0 {
        Seq::empty()
    } else {
        let rest = query_spec(entries.drop_last(), prefix);
        if has_prefix(entries.last(), prefix) {
            rest.push(entries.last())
        } else {
            rest
        }
    }
}

impl Run {
    /// Returns the output path for the final PDF.  If the caller did not
    /// specify a path, a default in the directory of the input file is
    /// derived from the input file's name.
    pub fn output_path(&self) -> (r: String)
        ensures
            r@ == output_path_spec(*self),
    {
        match &self.output {
            Some(x) => x.clone(),
            None => {
                let len = self.input.as_str().unicode_len();
                let ns = find_name_start(self.input.as_str());
                proof {
                    lemma_name_start_bounds(self.input@);
                }
                let name = self.input.as_str().substring_char(ns, len);
                let name_len = name.unicode_len();
                let fd = find_first_dot(name);
                proof {
                    lemma_first_dot_bounds(name@);
                }
                let mut r = self.input.as_str().substring_char(0, ns).to_owned();
                let stem = name.substring_char(0, fd);
                r.append(stem);
                r.append("-ironed.");
                if fd < name_len {
                    let rest = name.substring_char(fd + 1, name_len);
                    r.append(rest);
                    proof {
                        assert(r@ =~= derived_output(self.input@));
                    }
                } else {
                    proof {
                        assert(r@ =~= derived_output(self.input@));
                    }
                }
                r
            },
        }
    }

    /// Returns the full paths of the files among `entries` whose name
    /// starts with the given prefix, in the order given.  The caller
    /// passes the names found in the temporary folder.
    pub fn query_files(&self, entries: &Vec<String>, starts_with: &str) -> (r: Vec<String>)
        ensures
            r@.len() == query_spec(entries.deep_view(), starts_with@).len(),
            forall|j: int|
                0 <= j < r@.len() ==> r@[j]@ == joined(
                    self.folder@,
                    query_spec(entries.deep_view(), starts_with@)[j],
                ),
    {
        let ghost dv = entries.deep_view();
        let mut r: Vec<String> = Vec::new();
        let mut i: usize = 0;
        while i < entries.len()
            invariant
                i <= entries@.len(),
                dv == entries.deep_view(),
                dv.len() == entries@.len(),
                forall|k: int| 0 <= k < dv.len() ==> dv[k] == entries@[k]@,
                r@.len() == query_spec(dv.subrange(0, i as int), starts_with@).len(),
                forall|j: int|
                    0 <= j < r@.len() ==> r@[j]@ == joined(
                        self.folder@,
                        query_spec(dv.subrange(0, i as int), starts_with@)[j],
                    ),
            decreases entries@.len() - i,
        {
            proof {
                assert(dv.subrange(0, i + 1).drop_last() =~= dv.subrange(0, i as int));
                assert(dv.subrange(0, i + 1).last() == dv[i as int]);
            }
            if str_has_prefix(entries[i].as_str(), starts_with) {
                r.push(join_path(self.folder.as_str(), entries[i].as_str()));
            }
            i += 1;
        }
        proof {
            assert(dv.subrange(0, entries@.len() as int) =~= dv);
        }
        r
    }
}

/// A string built by putting a prefix in front starts with that prefix.
pub proof fn lemma_prefix_concat(p: Seq<char>, rest: Seq<char>)
    ensures
        has_prefix(p + rest, p),
{
    assert((p + rest).subrange(0, p.len() as int) =~= p);
}

/// Every name a query returns starts with the queried prefix and was
/// among the listed entries.
pub proof fn lemma_query_sound(entries: Seq<Seq<char>>, prefix: Seq<char>, x: Seq<char>)
    requires
        query_spec(entries, prefix).contains(x),
    ensures
        entries.contains(x),
        has_prefix(x, prefix),
    decreases entries.len(),
{
    if entries.len() > 0 {
        let rest = query_spec(entries.drop_last(), prefix);
        if has_prefix(entries.last(), prefix) && x == entries.last() {
        } else {
            assert(rest.contains(x)) by {
                if has_prefix(entries.last(), prefix) {
                    let i = choose|i: int|
                        0 <= i < query_spec(entries, prefix).len() && query_spec(entries, prefix)[i]
                            == x;
                    assert(rest.push(entries.last())[i] == x);
                    assert(i < rest.len());
                }
            }
            lemma_query_sound(entries.drop_last(), prefix, x);
            assert(entries.drop_last().contains(x));
            let i = choose|i: int|
                0 <= i < entries.drop_last().len() && entries.drop_last()[i] == x;
            assert(entries[i] == x);
        }
    }
}

/// Every listed name that starts with the queried prefix is returned by
/// the query.
pub proof fn lemma_query_complete(entries: Seq<Seq<char>>, prefix: Seq<char>, x: Seq<char>)
    requires
        entries.contains(x),
        has_prefix(x, prefix),
    ensures
        query_spec(entries, prefix).contains(x),
    decreases entries.len(),
{
    if entries.len() > 0 {
        let rest = query_spec(entries.drop_last(), prefix);
        if x == entries.last() {
            assert(rest.push(entries.last())[rest.len() as int] == x);
        } else {
            let i = choose|i: int| 0 <= i < entries.len() && entries[i] == x;
            assert(entries.drop_last()[i] == x);
            lemma_query_complete(entries.drop_last(), prefix, x);
            let j = choose|j: int| 0 <= j < rest.len() && rest[j] == x;
            if has_prefix(entries.last(), prefix) {
                assert(rest.push(entries.last())[j] == x);
            }
        }
    }
}

/// The naming round trip of the staging protocol: a staged file named by
/// putting a stage's prefix in front of an identifier, once listed in the
/// workspace, is found by the query for that stage's prefix — and a query
/// for a prefix starting with a different stage letter never returns it,
/// so the prefix sets of the stages are pairwise disjoint.
pub proof fn lemma_staged_name_round_trip(
    entries: Seq<Seq<char>>,
    own: Seq<char>,
    other: Seq<char>,
    ident: Seq<char>,
)
    requires
        entries.contains(own + ident),
        own.len() > 0,
        other.len() > 0,
        own[0] != other[0],
    ensures
        query_spec(entries, own).contains(own + ident),
        !query_spec(entries, other).contains(own + ident),
{
    let name = own + ident;
    lemma_prefix_concat(own, ident);
    lemma_query_complete(entries, own, name);
    assert(!has_prefix(name, other)) by {
        assert(name.subrange(0, own.len() as int)[0] == name[0]);
        if has_prefix(name, other) {
            assert(name.subrange(0, other.len() as int)[0] == name[0]);
        }
    }
    if query_spec(entries, other).contains(name) {
        lemma_query_sound(entries, other, name);
    }
}

/// Relies on `shellexpand::full`: expands a leading tilde to the home
/// directory and `$`-variable references to environment values.  A string
/// that holds no `'$'` and does not start with `'~'` comes back
/// unchanged, and expansion fails only over a `'$'` reference whose
/// variable cannot be looked up.
#[verifier::external_body]
fn shell_expand(s: &str) -> (r: Result<String, String>)
    ensures
        r matches Ok(e) ==> (((forall|i: int| 0 <= i < s@.len() ==> s@[i] != '$') && !(s@.len() > 0
            && s@[0] == '~')) ==> e@ == s@),
        r is Err ==> exists|i: int| 0 <= i < s@.len() && s@[i] == '$',
{
    match shellexpand::full(s) {
        Ok(x) => Ok(x.into_owned()),
        Err(e) => Err(e.to_string()),
    }
}

impl Run {
    /// Shell-expands a path and normalizes it to an absolute path
    /// relative to the given working directory: whatever the expansion
    /// produced, the result is absolute whenever the working directory
    /// is.  A path that needs no expansion passes through unchanged apart
    /// from the normalization.
    pub fn expand_path(file: &str, cwd: &str) -> (r: Result<String, ErrorMessage>)
        ensures
            ((forall|i: int| 0 <= i < file@.len() ==> file@[i] != '$') && !(file@.len() > 0
                && file@[0] == '~')) ==> (r matches Ok(p) && p@ == (if file@.len() > 0 && file@[0]
                == '/' {
                file@
            } else {
                joined(cwd@, file@)
            })),
            r matches Ok(p) ==> ((cwd@.len() > 0 && cwd@[0] == '/') ==> (p@.len() > 0 && p@[0]
                == '/')),
            r is Err ==> r->Err_0.kind == ErrorKind::InvalidInput,
    {
        let expanded = match shell_expand(file) {
            Ok(x) => x,
            Err(e) => {
                let mut m = String::from_str("Couldn't shell-expand given input path ");
                m.append(file);
                m.append(", ");
                m.append(e.as_str());
                return Err(ErrorMessage::new(ErrorKind::InvalidInput, m));
            },
        };
        let is_absolute = expanded.as_str().unicode_len() > 0 && expanded.as_str().get_char(0)
            == '/';
        if is_absolute {
            Ok(expanded)
        } else {
            let p = join_path(cwd, expanded.as_str());
            proof {
                assert(cwd@.len() > 0 ==> p@[0] == cwd@[0]);
            }
            Ok(p)
        }
    }
}

} // verus!
