//! The rasterize stage and the normalize-for-OCR stage.
//!
//! Both stages drive the same image-conversion tool: rasterizing extracts
//! every page of the source document into an image named `a_<page>`, and
//! normalizing re-encodes the intermediate images into the fixed TIFF
//! format the OCR engine expects, named `c_<stem>_%03d`.  This module
//! builds the work items and the exact command line of each invocation;
//! running them is the caller's job.

use crate::command::{opt_view, push_str_arg, push_string_arg, append_args, Invocation};
use crate::error::{ErrorKind, ErrorMessage};
use crate::paths::joined;
use crate::pool::WorkItem;
use crate::run::{extension_spec, Format, Run};
use crate::text::{
    all_digits, dec_rep, dec_val, split_spaces, split_spaces_spec, u64_to_string,
};
use crate::util::{file_name, file_stem_of};
use vstd::prelude::*;
use vstd::string::*;

verus! {

/// Reads the configured resolution: absent means the default of 300 dots
/// per inch, and anything but a positive integer is refused.
pub fn parse_resolution(resolution: &Option<String>) -> (r: Result<u64, ErrorMessage>)
    ensures
        resolution is None ==> r == Result::<u64, ErrorMessage>::Ok(300u64),
        resolution matches Some(s) ==> ((r is Ok) <==> (all_digits(s@) && 1 <= dec_val(s@)
            <= u64::MAX)),
        resolution matches Some(s) ==> (r is Ok ==> r->Ok_0 == dec_val(s@)),
        r is Err ==> r->Err_0.kind == ErrorKind::InvalidConfiguration,
{
    match resolution {
        None => Ok(300),
        Some(s) => {
            match crate::text::parse_u64(s.as_str()) {
                Some(n) if n >= 1 => Ok(n),
                _ => Err(
                    ErrorMessage::new(
                        ErrorKind::InvalidConfiguration,
                        String::from_str("Invalid resolution argument, has to be positive int"),
                    ),
                ),
            }
        },
    }
}

/// The name under which page `i` of the copied source document is
/// addressed: the canonical source name with the page index in brackets.
pub open spec fn page_source_name(i: nat) -> Seq<char> {
    "input.pdf["@ + dec_rep(i) + "]"@
}

/// The name (before the extension) of the rasterized image of page `i`.
pub open spec fn raster_name(i: nat) -> Seq<char> {
    "a_"@ + dec_rep(i)
}

/// Builds one work item per page of the source document: page `i` is
/// read from the copied document and written to the `a_`-prefixed image
/// for that page, with the extension of the run's image format.
pub fn rasterize_items(run: &Run, pages: u64) -> (r: Vec<WorkItem>)
    requires
        pages <= usize::MAX,
    ensures
        r@.len() == pages,
        forall|i: int|
            0 <= i < r@.len() ==> (#[trigger] r@[i]).input@ == joined(
                run.folder@,
                page_source_name(i as nat),
            ),
        forall|i: int|
            0 <= i < r@.len() ==> (#[trigger] r@[i]).output@ == joined(
                run.folder@,
                raster_name(i as nat),
            ) + seq!['.'] + extension_spec(run.format),
{
    let mut items: Vec<WorkItem> = Vec::new();
    let mut x: u64 = 0;
    #[verifier::loop_isolation(false)]
    while x < pages
        invariant
            x <= pages,
            items@.len() == x,
            forall|i: int|
                0 <= i < items@.len() ==> (#[trigger] items@[i]).input@ == joined(
                    run.folder@,
                    page_source_name(i as nat),
                ),
            forall|i: int|
                0 <= i < items@.len() ==> (#[trigger] items@[i]).output@ == joined(
                    run.folder@,
                    raster_name(i as nat),
                ) + seq!['.'] + extension_spec(run.format),
        decreases pages - x,
    {
        let num = u64_to_string(x);
        let mut src_name = String::from_str("input.pdf[");
        src_name.append(num.as_str());
        src_name.append("]");
        let input = run.prepend_with_temp_folder(src_name.as_str());
        let mut out_name = String::from_str("a_");
        out_name.append(num.as_str());
        let output = run.build_path(out_name.as_str(), None);
        proof {
            assert(src_name@ =~= page_source_name(x as nat));
            assert(out_name@ =~= raster_name(x as nat));
            crate::text::lemma_dec_rep_digits(x as nat);
            reveal_strlit("a_");
            assert forall|j: int| 0 <= j < out_name@.len() implies out_name@[j] != '.' by {
                if j < 2 {
                    assert(out_name@[j] == "a_"@[j]);
                } else {
                    assert(out_name@[j] == dec_rep(x as nat)[j - 2]);
                    crate::text::lemma_digit_not_dot(dec_rep(x as nat)[j - 2]);
                }
            }
        }
        items.push(WorkItem::new(input, output));
        x += 1;
    }
    items
}

/// The flags selecting color space and depth for the given image format.
pub open spec fn color_flags(f: Format) -> Seq<Seq<char>> {
    match f {
        Format::Graymap => seq![
            "-colorspace"@,
            "gray"@,
            "-depth"@,
            "8"@,
            "-background"@,
            "white"@,
            "-alpha"@,
            "Off"@,
        ],
        Format::Bitmap => seq!["-depth"@, "8"@, "-background"@, "white"@, "-alpha"@, "Off"@],
        Format::Pixmap => seq!["-type"@, "Bilevel"@],
        Format::Tiff => Seq::empty(),
    }
}

/// The density argument: the resolution twice, joined with an `x`.
pub open spec fn density_arg(res: nat) -> Seq<char> {
    dec_rep(res) + seq!['x'] + dec_rep(res)
}

/// The extra arguments passed through from the configured options
/// string, split at spaces.  The TIFF re-encoding for OCR never takes
/// extra options.
pub open spec fn opts_args(f: Format, options: Option<Seq<char>>) -> Seq<Seq<char>> {
    if f is Tiff {
        Seq::empty()
    } else {
        match options {
            Some(o) => split_spaces_spec(o),
            None => Seq::empty(),
        }
    }
}

/// The full argument vector of one conversion: units, color flags for the
/// format, density, the configured extra options, then the input and
/// output paths.
pub open spec fn convert_args_spec(
    f: Format,
    res: nat,
    options: Option<Seq<char>>,
    input: Seq<char>,
    output: Seq<char>,
) -> Seq<Seq<char>> {
    seq!["-units"@, "PixelsPerInch"@] + color_flags(f) + seq!["-density"@, density_arg(res)]
        + opts_args(f, options) + seq![input, output]
}

/// Builds the conversion command for one work item.
pub fn convert_invocation(
    format: Format,
    resolution: u64,
    options: &Option<String>,
    item: &WorkItem,
) -> (r: Invocation)
    ensures
        r.binary@ == "convert"@,
        r.args.deep_view() == convert_args_spec(
            format,
            resolution as nat,
            opt_view(*options),
            item.input@,
            item.output@,
        ),
{
    let mut args: Vec<String> = Vec::new();
    push_str_arg(&mut args, "-units");
    push_str_arg(&mut args, "PixelsPerInch");
    match format {
        Format::Graymap => {
            push_str_arg(&mut args, "-colorspace");
            push_str_arg(&mut args, "gray");
            push_str_arg(&mut args, "-depth");
            push_str_arg(&mut args, "8");
            push_str_arg(&mut args, "-background");
            push_str_arg(&mut args, "white");
            push_str_arg(&mut args, "-alpha");
            push_str_arg(&mut args, "Off");
        },
        Format::Bitmap => {
            push_str_arg(&mut args, "-depth");
            push_str_arg(&mut args, "8");
            push_str_arg(&mut args, "-background");
            push_str_arg(&mut args, "white");
            push_str_arg(&mut args, "-alpha");
            push_str_arg(&mut args, "Off");
        },
        Format::Pixmap => {
            push_str_arg(&mut args, "-type");
            push_str_arg(&mut args, "Bilevel");
        },
        Format::Tiff => {},
    }
    push_str_arg(&mut args, "-density");
    let num = u64_to_string(resolution);
    let mut dens = num.clone();
    dens.append("x");
    dens.append(num.as_str());
    proof {
        reveal_strlit("x");
        assert(dens@ =~= density_arg(resolution as nat));
    }
    push_string_arg(&mut args, dens);
    match format {
        Format::Tiff => {},
        _ => {
            match options {
                Some(o) => {
                    let parts = split_spaces(o.as_str());
                    append_args(&mut args, parts);
                },
                None => {},
            }
        },
    }
    push_string_arg(&mut args, item.input.clone());
    push_string_arg(&mut args, item.output.clone());
    proof {
        assert(args.deep_view() =~= convert_args_spec(
            format,
            resolution as nat,
            opt_view(*options),
            item.input@,
            item.output@,
        ));
    }
    Invocation { binary: String::from_str("convert"), args }
}

/// Builds one work item per intermediate image for the normalize pass:
/// each image is re-encoded as a TIFF named after its own stem, with the
/// page-number placeholder the conversion tool fills in.
pub fn normalize_items(run: &Run, inputs: &Vec<String>) -> (r: Vec<WorkItem>)
    ensures
        r@.len() == inputs@.len(),
        forall|i: int| 0 <= i < r@.len() ==> (#[trigger] r@[i]).input@ == inputs@[i]@,
        forall|i: int|
            0 <= i < r@.len() ==> (#[trigger] r@[i]).output@ == joined(
                run.folder@,
                "c_"@ + file_stem_of(inputs@[i]@) + "_%03d"@,
            ) + seq!['.'] + "tiff"@,
{
    let mut items: Vec<WorkItem> = Vec::new();
    let mut i: usize = 0;
    #[verifier::loop_isolation(false)]
    while i < inputs.len()
        invariant
            i <= inputs@.len(),
            items@.len() == i,
            forall|j: int| 0 <= j < items@.len() ==> (#[trigger] items@[j]).input@ == inputs@[j]@,
            forall|j: int|
                0 <= j < items@.len() ==> (#[trigger] items@[j]).output@ == joined(
                    run.folder@,
                    "c_"@ + file_stem_of(inputs@[j]@) + "_%03d"@,
                ) + seq!['.'] + "tiff"@,
        decreases inputs@.len() - i,
    {
        let input = inputs[i].clone();
        let stem = file_name(input.as_str());
        let mut out_name = String::from_str("c_");
        out_name.append(stem.as_str());
        out_name.append("_%03d");
        let output = run.build_path(out_name.as_str(), Some("tiff"));
        proof {
            assert(out_name@ =~= "c_"@ + file_stem_of(inputs@[i as int]@) + "_%03d"@);
            crate::util::lemma_file_stem_dotless(inputs@[i as int]@);
            reveal_strlit("c_");
            reveal_strlit("_%03d");
            let stem_view = file_stem_of(inputs@[i as int]@);
            assert forall|j: int| 0 <= j < out_name@.len() implies out_name@[j] != '.' by {
                if j < 2 {
                    assert(out_name@[j] == ("c_"@ + stem_view)[j]);
                    assert(out_name@[j] == "c_"@[j]);
                } else if j < 2 + stem_view.len() {
                    assert(out_name@[j] == ("c_"@ + stem_view)[j]);
                    assert(out_name@[j] == stem_view[j - 2]);
                } else {
                    assert(out_name@[j] == "_%03d"@[j - 2 - stem_view.len()]);
                }
            }
        }
        items.push(WorkItem::new(input, output));
        i += 1;
    }
    items
}

} // verus!
