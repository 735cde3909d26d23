//! Command-line argument handling of the schema generator.

use vstd::prelude::*;
use crate::text::str_eq;

verus! {

/// Whether `a` is the output flag, `-o` or `--out`.
pub open spec fn is_output_flag(a: Seq<char>) -> bool {
    a == "-o"@ || a == "--out"@
}

/// The position of the first output flag at or after `i`.
pub open spec fn first_output_flag(args: Seq<Seq<char>>, i: int) -> Option<int>
    decreases args.len() - i,
{
    if i < 0 || i >= args.len() {
        None
    } else if is_output_flag(args[i]) {
        Some(i)
    } else {
        first_output_flag(args, i + 1)
    }
}

/// The usage message for `program`.
pub open spec fn usage_message(program: Seq<char>) -> Seq<char> {
    "Usage: "@ + program + " -o <output-file>"@
}

/// The program name: the first argument, or `program`.
pub open spec fn program_name(args: Seq<Seq<char>>) -> Seq<char> {
    if args.len() > 0 {
        args[0]
    } else {
        "program"@
    }
}

/// The output path given by the arguments, or the error message.
pub open spec fn spec_parse_output_arg(args: Seq<Seq<char>>) -> Result<Seq<char>, Seq<char>> {
    match first_output_flag(args, 1) {
        Some(i) => if i + 1 < args.len() {
            Ok(args[i + 1])
        } else {
            Err("Missing output file path after -o/--out"@)
        },
        None => Err(usage_message(program_name(args))),
    }
}

/// The views of the arguments.
pub open spec fn args_view(args: Seq<String>) -> Seq<Seq<char>> {
    args.map_values(|a: String| a@)
}

/// Finds the output file in the arguments: the argument after the first
/// `-o` or `--out` (the program name, first, is not read as a flag).
pub fn parse_output_arg(args: &Vec<String>) -> (r: Result<String, String>)
    ensures
        match spec_parse_output_arg(args_view(args@)) {
            Ok(p) => r matches Ok(x) && x@ == p,
            Err(e) => r matches Err(x) && x@ == e,
        },
{
    let ghost av = args_view(args@);
    let mut i: usize = 1;
    while i < args.len()
        invariant
            1 <= i,
            av == args_view(args@),
            av.len() == args@.len(),
            first_output_flag(av, 1) == first_output_flag(av, i as int),
        decreases args.len() - i,
    {
        let a = args[i].as_str();
        if str_eq(a, "-o") || str_eq(a, "--out") {
            if i + 1 < args.len() {
                return Ok(args[i + 1].clone());
            }
            return Err("Missing output file path after -o/--out".to_owned());
        }
        i = i + 1;
    }
    let mut msg = "Usage: ".to_owned();
    if args.len() > 0 {
        msg.append(args[0].as_str());
    } else {
        msg.append("program");
    }
    msg.append(" -o <output-file>");
    Err(msg)
}

} // verus!
