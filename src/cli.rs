use vstd::prelude::*;

use crate::error::{make_error, SMError};
use crate::text::{lower_of, lowercase, text_is, views_of};

verus! {

/// What a command line asks for.
#[derive(Clone, Debug)]
pub enum Command {
    /// Print how to use the program.
    Usage,
    Help,
    Version,
    AddPath,
    RemovePath,
    /// Print the help of every language.
    HelpAll,
    /// Print the help of the language with this alias.
    HelpLanguage(String),
    /// Generate files: language alias, file kind (lower-cased), target name and
    /// free arguments.
    Generate { language: String, filetype: String, name: String, args: Vec<String> },
}

pub open spec fn is_either(a: Seq<char>, x: Seq<char>, y: Seq<char>) -> bool {
    lower_of(a) == x || lower_of(a) == y
}

/// The message for a command line that asks for nothing known.
pub open spec fn invalid_arguments() -> Seq<char> {
    "Invalid argument(s). Run `>srcmake -h` for help."@
}

/// Reads a command line whose first item is the program's own name.
pub fn parse_command(args: &Vec<String>) -> (r: Result<Command, SMError>)
    ensures
        args@.len() < 2 ==> r matches Ok(Command::Usage),
        args@.len() == 2 ==> {
            let a = args@[1]@;
            if is_either(a, "-h"@, "-help"@) {
                r matches Ok(Command::Help)
            } else if is_either(a, "-v"@, "-version"@) {
                r matches Ok(Command::Version)
            } else if is_either(a, "-p"@, "-path"@) {
                r matches Ok(Command::AddPath)
            } else if is_either(a, "-rp"@, "-remove-path"@) {
                r matches Ok(Command::RemovePath)
            } else {
                r is Err && r->Err_0.message@ == invalid_arguments()
            }
        },
        args@.len() == 3 ==> {
            if !is_either(args@[1]@, "-h"@, "-help"@) {
                r is Err && r->Err_0.message@ == invalid_arguments()
            } else if lower_of(args@[2]@) == "--all"@ {
                r matches Ok(Command::HelpAll)
            } else {
                (r matches Ok(Command::HelpLanguage(l)) && l@ == args@[2]@)
            }
        },
        args@.len() > 3 ==> (r matches Ok(Command::Generate { language, filetype, name, args: rest })
            && language@ == args@[1]@ && filetype@ == lower_of(args@[2]@) && name@ == args@[3]@
            && views_of(rest@) == views_of(args@).subrange(4, args@.len() as int)),
{
    let n = args.len();
    if n < 2 {
        return Ok(Command::Usage);
    }
    let first = lowercase(args[1].as_str());
    let help = text_is(first.as_str(), "-h") || text_is(first.as_str(), "-help");
    if n == 2 {
        if help {
            return Ok(Command::Help);
        } else if text_is(first.as_str(), "-v") || text_is(first.as_str(), "-version") {
            return Ok(Command::Version);
        } else if text_is(first.as_str(), "-p") || text_is(first.as_str(), "-path") {
            return Ok(Command::AddPath);
        } else if text_is(first.as_str(), "-rp") || text_is(first.as_str(), "-remove-path") {
            return Ok(Command::RemovePath);
        }
        return Err(make_error("Invalid argument(s). Run `>srcmake -h` for help."));
    }
    if n == 3 {
        if !help {
            return Err(make_error("Invalid argument(s). Run `>srcmake -h` for help."));
        }
        let second = lowercase(args[2].as_str());
        if text_is(second.as_str(), "--all") {
            return Ok(Command::HelpAll);
        }
        return Ok(Command::HelpLanguage(args[2].clone()));
    }
    let mut rest: Vec<String> = Vec::new();
    let mut i: usize = 4;
    while i < n
        invariant
            n == args@.len(),
            4 <= i <= n,
            views_of(rest@) == views_of(args@).subrange(4, i as int),
        decreases n - i,
    {
        let ghost old_rest = rest@;
        let c = args[i].clone();
        rest.push(c);
        assert(views_of(rest@) =~= views_of(old_rest).push(args@[i as int]@));
        assert(views_of(args@).subrange(4, i + 1) =~= views_of(args@).subrange(4, i as int).push(
            args@[i as int]@,
        ));
        i = i + 1;
    }
    Ok(
        Command::Generate {
            language: args[1].clone(),
            filetype: lowercase(args[2].as_str()),
            name: args[3].clone(),
            args: rest,
        },
    )
}

} // verus!
