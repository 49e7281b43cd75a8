//! The merge stage: uniting the per-page PDFs into the final document.
//!
//! The merge tool concatenates its inputs in argument order, so the
//! `d_`-prefixed per-page PDFs are sorted lexicographically by full path
//! before they are passed — that sort is what preserves page order, and
//! it is imposed here and nowhere else.

use crate::command::Invocation;
use crate::run::{output_path_spec, Run};
use crate::text::{lex_leq, sort_strings};
use vstd::prelude::*;
use vstd::string::*;

verus! {

/// Builds the merge command: the given per-page PDFs, sorted
/// lexicographically by full path, followed by the output path of the
/// run.
pub fn unite(run: &Run, inputs: Vec<String>) -> (r: Invocation)
    ensures
        r.binary@ == "pdfunite"@,
        r.args@.len() == inputs@.len() + 1,
        forall|i: int, j: int|
            0 <= i < j < inputs@.len() ==> lex_leq(#[trigger] r.args@[i]@, #[trigger] r.args@[j]@),
        r.args.deep_view().subrange(0, inputs@.len() as int).to_multiset() == inputs.deep_view()
            .to_multiset(),
        r.args@[inputs@.len() as int]@ == output_path_spec(*run),
{
    let ghost n = inputs@.len();
    let mut args = sort_strings(inputs);
    let ghost sorted = args.deep_view();
    let out = run.output_path();
    let ghost outv = out@;
    args.push(out);
    proof {
        assert(args.deep_view() =~= sorted.push(outv));
        assert(args.deep_view().subrange(0, n as int) =~= sorted);
    }
    Invocation { binary: String::from_str("pdfunite"), args }
}

} // verus!
