//! The options of a run, built from the command line.
use vstd::prelude::*;
use crate::text::{chars_of, decimal, push_decimal, string_of};

verus! {

/// What to search for, where, and how.
pub struct Config {
    pub query: String,
    pub file_path: String,
    pub ignore_case: bool,
    pub show_line_numbers: bool,
}

/// The number of arguments that follow the program name in `args`.
pub open spec fn given(n: nat) -> nat {
    if n == 0 {
        0
    } else {
        (n - 1) as nat
    }
}

/// The message for a command line with only `received` arguments after the program name.
pub open spec fn too_few_message(received: nat) -> Seq<char> {
    "Insufficient arguments. Expected 2, received "@ + decimal(received)
}

impl Config {
    /// Builds the options from the command line `args` (the program name first, then the
    /// query and the file path) and the two switches; fewer than two arguments after the
    /// program name is an error that says how many were given.
    pub fn build(args: &[String], ignore_case: bool, show_line_numbers: bool) -> (r: Result<
        Config,
        String,
    >)
        ensures
            args@.len() >= 3 <==> r is Ok,
            r matches Ok(c) ==> c.query@ == args@[1]@ && c.file_path@ == args@[2]@
                && c.ignore_case == ignore_case && c.show_line_numbers == show_line_numbers,
            r matches Err(e) ==> e@ == too_few_message(given(args@.len())),
    {
        if args.len() < 3 {
            let received: usize = if args.len() == 0 {
                0
            } else {
                args.len() - 1
            };
            let mut msg = chars_of("Insufficient arguments. Expected 2, received ");
            push_decimal(&mut msg, received);
            return Err(string_of(&msg));
        }
        let query = args[1].clone();
        let file_path = args[2].clone();
        Ok(Config { query, file_path, ignore_case, show_line_numbers })
    }
}

} // verus!
