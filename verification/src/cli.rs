//! Command-surface validation: the program accepts exactly one positional
//! argument, a path whose file name carries the (case-sensitive) `gif`
//! extension; anything else is a usage error.

use vstd::prelude::*;

verus! {

/// The path with any trailing separators removed: path handling reads the
/// file name of `dir/x.gif/` as `x.gif`, so trailing separators do not
/// count against the extension.
pub open spec fn spec_trim_separators(p: Seq<u8>) -> Seq<u8>
    decreases p.len(),
{
    if p.len() > 0 && p.last() == 47u8 {
        spec_trim_separators(p.drop_last())
    } else {
        p
    }
}

/// Whether the byte path names a `.gif` file: trailing separators aside,
/// it ends in `.gif` and the file name has a non-empty stem before the dot
/// — a separator directly before the dot, or nothing at all, leaves a name
/// that path handling treats as having no extension.
pub open spec fn spec_gif_path(p: Seq<u8>) -> bool {
    let q = spec_trim_separators(p);
    let n = q.len() as int;
    &&& n >= 5
    &&& q[n - 4] == 46u8  // `.`
    &&& q[n - 3] == 103u8  // `g`
    &&& q[n - 2] == 105u8  // `i`
    &&& q[n - 1] == 102u8  // `f`
    &&& q[n - 5] != 47u8  // `/`
}

/// Whether the argument list (the program name excluded) is a valid
/// invocation: exactly one path, and it names a `.gif` file.
pub open spec fn spec_usage_ok(args: Seq<Seq<u8>>) -> bool {
    args.len() == 1 && spec_gif_path(args[0])
}

/// Validates the command arguments, each given as its byte string.
pub fn usage_ok(args: &Vec<Vec<u8>>) -> (ok: bool)
    ensures
        ok == spec_usage_ok(args.deep_view()),
{
    proof {
        assert(args.deep_view().len() == args@.len());
    }
    if args.len() != 1 {
        return false;
    }
    let p = &args[0];
    proof {
        assert(args.deep_view()[0] =~= p@);
    }

    let mut end: usize = p.len();
    proof {
        assert(p@.take(p@.len() as int) =~= p@);
    }
    while end > 0 && p[end - 1] == 47
        invariant
            end <= p@.len(),
            spec_trim_separators(p@) == spec_trim_separators(p@.take(end as int)),
        decreases end,
    {
        proof {
            assert(p@.take(end as int).drop_last() =~= p@.take(end as int - 1));
        }
        end = end - 1;
    }
    proof {
        assert(spec_trim_separators(p@) =~= p@.take(end as int));
    }

    if end < 5 {
        return false;
    }
    p[end - 4] == 46 && p[end - 3] == 103 && p[end - 2] == 105 && p[end - 1] == 102 && p[end - 5]
        != 47
}

} // verus!
