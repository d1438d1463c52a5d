//! Resolution of argument expressions.
//!
//! Each argument of a call is a sequence of text fragments; its value is the
//! fragments' text concatenated in order with no separator. This step is
//! total: it cannot fail on a well-formed command tree.

use vstd::prelude::*;
use vstd::string::StringExecFns;

use crate::parser::Expr;
use crate::parser::arg_view;

verus! {

/// The value of one argument: its fragments concatenated in source order.
pub open spec fn concat_frags(frags: Seq<Seq<char>>) -> Seq<char>
    decreases frags.len(),
{
    if frags.len() == 0 {
        Seq::empty()
    } else {
        concat_frags(frags.drop_last()) + frags.last()
    }
}

/// The values of all arguments of a call.
pub open spec fn eval_args_model(args: Seq<Seq<Seq<char>>>) -> Seq<Seq<char>> {
    args.map_values(|a: Seq<Seq<char>>| concat_frags(a))
}

/// The characters of each string in a sequence of strings.
pub open spec fn strings_view(ss: Seq<String>) -> Seq<Seq<char>> {
    ss.map_values(|s: String| s@)
}

/// Resolves one argument to its final string value.
pub fn eval_arg(arg: &Vec<Expr>) -> (r: String)
    ensures
        r@ == concat_frags(arg_view(arg@)),
{
    let mut out = String::new();
    let mut i: usize = 0;
    while i < arg.len()
        invariant
            i <= arg.len(),
            out@ == concat_frags(arg_view(arg@).take(i as int)),
        decreases arg.len() - i,
    {
        match &arg[i] {
            Expr::Text(t) => {
                out.append(t.as_str());
            },
        }
        i = i + 1;
        proof {
            assert(arg_view(arg@).take(i as int).drop_last() =~= arg_view(arg@).take(i - 1));
        }
    }
    proof {
        assert(arg_view(arg@).take(arg.len() as int) =~= arg_view(arg@));
    }
    out
}

/// Resolves every argument of a call.
pub fn eval_args(args: &Vec<Vec<Expr>>) -> (r: Vec<String>)
    ensures
        strings_view(r@) == eval_args_model(crate::parser::args_view(args@)),
{
    let mut out: Vec<String> = Vec::new();
    let mut i: usize = 0;
    proof {
        assert(strings_view(out@) =~= eval_args_model(
            crate::parser::args_view(args@).take(0),
        ));
    }
    while i < args.len()
        invariant
            i <= args.len(),
            strings_view(out@) == eval_args_model(crate::parser::args_view(args@).take(i as int)),
        decreases args.len() - i,
    {
        let v = eval_arg(&args[i]);
        proof {
            assert(strings_view(out@.push(v)) =~= strings_view(out@).push(v@));
            assert(eval_args_model(crate::parser::args_view(args@).take(i + 1)) =~= eval_args_model(
                crate::parser::args_view(args@).take(i as int),
            ).push(concat_frags(arg_view(args@[i as int]@))));
        }
        out.push(v);
        i = i + 1;
    }
    proof {
        assert(crate::parser::args_view(args@).take(args.len() as int) =~= crate::parser::args_view(
            args@,
        ));
    }
    out
}

} // verus!
