//! The cleanup stage: page enhancement through the cleanup filter.
//!
//! The stage reads the `a_`-prefixed page images and writes enhanced
//! copies under the `b_` prefix, named after the stem of their input with
//! the page-number placeholder the filter fills in.

use crate::command::{append_args, opt_view, push_str_arg, push_string_arg, Invocation};
use crate::paths::joined;
use crate::pool::WorkItem;
use crate::run::{extension_spec, Run};
use crate::text::{split_spaces, split_spaces_spec};
use crate::util::{file_name, file_stem_of};
use vstd::prelude::*;
use vstd::string::*;

verus! {

/// Builds one work item per discovered page image: each `a_`-prefixed
/// image is enhanced into a `b_`-prefixed image named after its stem,
/// with the extension of the run's image format.
pub fn unpaper_items(run: &Run, inputs: &Vec<String>) -> (r: Vec<WorkItem>)
    ensures
        r@.len() == inputs@.len(),
        forall|i: int| 0 <= i < r@.len() ==> (#[trigger] r@[i]).input@ == inputs@[i]@,
        forall|i: int|
            0 <= i < r@.len() ==> (#[trigger] r@[i]).output@ == joined(
                run.folder@,
                "b_"@ + file_stem_of(inputs@[i]@) + "_%05d"@,
            ) + seq!['.'] + extension_spec(run.format),
{
    let mut items: Vec<WorkItem> = Vec::new();
    let mut i: usize = 0;
    #[verifier::loop_isolation(false)]
    while i < inputs.len()
        invariant
            i <= inputs@.len(),
            items@.len() == i,
            forall|j: int| 0 <= j < items@.len() ==> (#[trigger] items@[j]).input@ == inputs@[j]@,
            forall|j: int|
                0 <= j < items@.len() ==> (#[trigger] items@[j]).output@ == joined(
                    run.folder@,
                    "b_"@ + file_stem_of(inputs@[j]@) + "_%05d"@,
                ) + seq!['.'] + extension_spec(run.format),
        decreases inputs@.len() - i,
    {
        let input = inputs[i].clone();
        let stem = file_name(input.as_str());
        let mut out_name = String::from_str("b_");
        out_name.append(stem.as_str());
        out_name.append("_%05d");
        let output = run.build_path(out_name.as_str(), None);
        proof {
            assert(out_name@ =~= "b_"@ + file_stem_of(inputs@[i as int]@) + "_%05d"@);
            crate::util::lemma_file_stem_dotless(inputs@[i as int]@);
            reveal_strlit("b_");
            reveal_strlit("_%05d");
            let stem_view = file_stem_of(inputs@[i as int]@);
            assert forall|j: int| 0 <= j < out_name@.len() implies out_name@[j] != '.' by {
                if j < 2 {
                    assert(out_name@[j] == ("b_"@ + stem_view)[j]);
                    assert(out_name@[j] == "b_"@[j]);
                } else if j < 2 + stem_view.len() {
                    assert(out_name@[j] == ("b_"@ + stem_view)[j]);
                    assert(out_name@[j] == stem_view[j - 2]);
                } else {
                    assert(out_name@[j] == "_%05d"@[j - 2 - stem_view.len()]);
                }
            }
        }
        items.push(WorkItem::new(input, output));
        i += 1;
    }
    items
}

/// The flag pair for an optional valued switch.
pub open spec fn valued_flag(flag: Seq<char>, value: Option<Seq<char>>) -> Seq<Seq<char>> {
    match value {
        Some(v) => seq![flag, v],
        None => Seq::empty(),
    }
}

/// The flag for an optional boolean switch.
pub open spec fn bool_flag(flag: Seq<char>, on: bool) -> Seq<Seq<char>> {
    if on {
        seq![flag]
    } else {
        Seq::empty()
    }
}

/// The full argument vector of one cleanup invocation: the configured
/// extra options, the layout and output-page-count switches when
/// configured, the filter-disable switches when set, then the input and
/// output paths.
pub open spec fn unpaper_args_spec(
    layout: Option<Seq<char>>,
    output_pages: Option<Seq<char>>,
    options: Option<Seq<char>>,
    no_blackfilter: bool,
    no_grayfilter: bool,
    input: Seq<char>,
    output: Seq<char>,
) -> Seq<Seq<char>> {
    (match options {
        Some(o) => split_spaces_spec(o),
        None => Seq::empty(),
    }) + valued_flag("--layout"@, layout) + valued_flag("--output-pages"@, output_pages)
        + bool_flag("--no-blackfilter"@, no_blackfilter) + bool_flag(
        "--no-grayfilter"@,
        no_grayfilter,
    ) + seq![input, output]
}

/// Builds the cleanup command for one work item.
pub fn unpaper_invocation(
    layout: &Option<String>,
    output_pages: &Option<String>,
    options: &Option<String>,
    no_blackfilter: bool,
    no_grayfilter: bool,
    item: &WorkItem,
) -> (r: Invocation)
    ensures
        r.binary@ == "unpaper"@,
        r.args.deep_view() == unpaper_args_spec(
            opt_view(*layout),
            opt_view(*output_pages),
            opt_view(*options),
            no_blackfilter,
            no_grayfilter,
            item.input@,
            item.output@,
        ),
{
    let mut args: Vec<String> = Vec::new();
    match options {
        Some(o) => {
            let parts = split_spaces(o.as_str());
            append_args(&mut args, parts);
        },
        None => {},
    }
    match layout {
        Some(l) => {
            push_str_arg(&mut args, "--layout");
            push_str_arg(&mut args, l.as_str());
        },
        None => {},
    }
    match output_pages {
        Some(p) => {
            push_str_arg(&mut args, "--output-pages");
            push_str_arg(&mut args, p.as_str());
        },
        None => {},
    }
    if no_blackfilter {
        push_str_arg(&mut args, "--no-blackfilter");
    }
    if no_grayfilter {
        push_str_arg(&mut args, "--no-grayfilter");
    }
    push_string_arg(&mut args, item.input.clone());
    push_string_arg(&mut args, item.output.clone());
    proof {
        assert(args.deep_view() =~= unpaper_args_spec(
            opt_view(*layout),
            opt_view(*output_pages),
            opt_view(*options),
            no_blackfilter,
            no_grayfilter,
            item.input@,
            item.output@,
        ));
    }
    Invocation { binary: String::from_str("unpaper"), args }
}

} // verus!
