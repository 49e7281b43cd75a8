//! The description of one external invocation: the binary to run and its
//! argument vector.  Stage drivers build these; the surrounding binary
//! spawns them.

use vstd::prelude::*;
use vstd::string::*;

verus! {

/// One external command, ready to be spawned: the name of the binary and
/// its arguments in order.
#[derive(Debug)]
pub struct Invocation {
    /// Name of the binary, looked up on the executable search path.
    pub binary: String,
    /// The arguments, in the order they are passed.
    pub args: Vec<String>,
}

/// The view of an optional string.
pub open spec fn opt_view(o: Option<String>) -> Option<Seq<char>> {
    match o {
        Some(s) => Some(s@),
        None => None,
    }
}

/// Appends one borrowed argument.
pub fn push_str_arg(args: &mut Vec<String>, s: &str)
    ensures
        final(args).deep_view() == old(args).deep_view().push(s@),
{
    args.push(s.to_owned());
    proof {
        assert(final(args).deep_view() =~= old(args).deep_view().push(s@));
    }
}

/// Appends one owned argument.
pub fn push_string_arg(args: &mut Vec<String>, s: String)
    ensures
        final(args).deep_view() == old(args).deep_view().push(s@),
{
    let ghost v = s@;
    args.push(s);
    proof {
        assert(final(args).deep_view() =~= old(args).deep_view().push(v));
    }
}

/// Appends a whole argument list.
pub fn append_args(args: &mut Vec<String>, mut parts: Vec<String>)
    ensures
        final(args).deep_view() == old(args).deep_view() + parts.deep_view(),
{
    let ghost parts0 = parts.deep_view();
    let n = parts.len();
    let mut i: usize = 0;
    #[verifier::loop_isolation(false)]
    while i < n
        invariant
            i <= n,
            n == parts@.len(),
            parts.deep_view() == parts0,
            args.deep_view() == old(args).deep_view() + parts0.subrange(0, i as int),
        decreases n - i,
    {
        let ghost pre = args.deep_view();
        let p = parts[i].clone();
        args.push(p);
        proof {
            assert(args.deep_view() =~= pre.push(parts0[i as int]));
            assert(pre.push(parts0[i as int]) =~= old(args).deep_view() + parts0.subrange(
                0,
                i + 1,
            ));
        }
        i += 1;
    }
    proof {
        assert(parts0.subrange(0, n as int) =~= parts0);
    }
}

} // verus!
