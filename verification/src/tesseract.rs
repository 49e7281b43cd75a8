//! The OCR stage: character recognition over the normalized page images.
//!
//! The stage reads the `c_`-prefixed TIFF images and writes one
//! searchable PDF per page under the `d_` prefix.  OCR runs with its own
//! worker count, configured separately from the other stages because each
//! recognition process is heavier.

use crate::command::{append_args, opt_view, push_str_arg, push_string_arg, Invocation};
use crate::error::{ErrorKind, ErrorMessage};
use crate::paths::joined;
use crate::pool::WorkItem;
use crate::run::Run;
use crate::text::{all_digits, dec_val, parse_u64, split_spaces, split_spaces_spec};
use crate::util::{file_name, file_stem_of};
use vstd::prelude::*;
use vstd::string::*;

verus! {

/// Reads the configured OCR worker count: absent means two workers, and
/// anything but a positive integer is refused.
pub fn parse_thread_count(threads: &Option<String>) -> (r: Result<u64, ErrorMessage>)
    ensures
        threads is None ==> r == Result::<u64, ErrorMessage>::Ok(2u64),
        threads matches Some(s) ==> ((r is Ok) <==> (all_digits(s@) && 1 <= dec_val(s@)
            <= u64::MAX)),
        threads matches Some(s) ==> (r is Ok ==> r->Ok_0 == dec_val(s@)),
        r is Err ==> r->Err_0.kind == ErrorKind::InvalidConfiguration,
{
    match threads {
        None => Ok(2),
        Some(s) => {
            match parse_u64(s.as_str()) {
                Some(n) if n >= 1 => Ok(n),
                _ => Err(
                    ErrorMessage::new(
                        ErrorKind::InvalidConfiguration,
                        String::from_str(
                            "Invalid tesseract-threads argument, has to be positive int",
                        ),
                    ),
                ),
            }
        },
    }
}

/// Builds one work item per normalized image: each `c_`-prefixed TIFF is
/// recognized into a `d_`-prefixed PDF named after its stem.
pub fn tesseract_items(run: &Run, inputs: &Vec<String>) -> (r: Vec<WorkItem>)
    ensures
        r@.len() == inputs@.len(),
        forall|i: int| 0 <= i < r@.len() ==> (#[trigger] r@[i]).input@ == inputs@[i]@,
        forall|i: int|
            0 <= i < r@.len() ==> (#[trigger] r@[i]).output@ == joined(
                run.folder@,
                "d_"@ + file_stem_of(inputs@[i]@),
            ) + seq!['.'] + "pdf"@,
{
    let mut items: Vec<WorkItem> = Vec::new();
    let mut i: usize = 0;
    #[verifier::loop_isolation(false)]
    while i < inputs.len()
        invariant
            i <= inputs@.len(),
            items@.len() == i,
            forall|j: int| 0 <= j < items@.len() ==> (#[trigger] items@[j]).input@ == inputs@[j]@,
            forall|j: int|
                0 <= j < items@.len() ==> (#[trigger] items@[j]).output@ == joined(
                    run.folder@,
                    "d_"@ + file_stem_of(inputs@[j]@),
                ) + seq!['.'] + "pdf"@,
        decreases inputs@.len() - i,
    {
        let input = inputs[i].clone();
        let stem = file_name(input.as_str());
        let mut out_name = String::from_str("d_");
        out_name.append(stem.as_str());
        let output = run.build_path(out_name.as_str(), Some("pdf"));
        proof {
            assert(out_name@ =~= "d_"@ + file_stem_of(inputs@[i as int]@));
            crate::util::lemma_file_stem_dotless(inputs@[i as int]@);
            reveal_strlit("d_");
            let stem_view = file_stem_of(inputs@[i as int]@);
            assert forall|j: int| 0 <= j < out_name@.len() implies out_name@[j] != '.' by {
                if j < 2 {
                    assert(out_name@[j] == "d_"@[j]);
                } else {
                    assert(out_name@[j] == stem_view[j - 2]);
                }
            }
        }
        items.push(WorkItem::new(input, output));
        i += 1;
    }
    items
}

/// The full argument vector of one recognition: the language switch with
/// the configured language or the English default, the configured extra
/// options, the input and output paths, and the fixed PDF output mode.
pub open spec fn tesseract_args_spec(
    lang: Option<Seq<char>>,
    options: Option<Seq<char>>,
    input: Seq<char>,
    output: Seq<char>,
) -> Seq<Seq<char>> {
    seq![
        "-l"@,
        match lang {
            Some(l) => l,
            None => "eng"@,
        },
    ] + (match options {
        Some(o) => split_spaces_spec(o),
        None => Seq::empty(),
    }) + seq![input, output, "pdf"@]
}

/// Builds the recognition command for one work item.
pub fn tesseract_invocation(
    lang: &Option<String>,
    options: &Option<String>,
    item: &WorkItem,
) -> (r: Invocation)
    ensures
        r.binary@ == "tesseract"@,
        r.args.deep_view() == tesseract_args_spec(
            opt_view(*lang),
            opt_view(*options),
            item.input@,
            item.output@,
        ),
{
    let mut args: Vec<String> = Vec::new();
    push_str_arg(&mut args, "-l");
    match lang {
        Some(l) => push_str_arg(&mut args, l.as_str()),
        None => push_str_arg(&mut args, "eng"),
    }
    match options {
        Some(o) => {
            let parts = split_spaces(o.as_str());
            append_args(&mut args, parts);
        },
        None => {},
    }
    push_string_arg(&mut args, item.input.clone());
    push_string_arg(&mut args, item.output.clone());
    push_str_arg(&mut args, "pdf");
    proof {
        assert(args.deep_view() =~= tesseract_args_spec(
            opt_view(*lang),
            opt_view(*options),
            item.input@,
            item.output@,
        ));
    }
    Invocation { binary: String::from_str("tesseract"), args }
}

} // verus!
