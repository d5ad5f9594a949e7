use vstd::prelude::*;

use crate::text::{chars_of, push_all, string_of};

verus! {

/// The program's directory without its trailing character (its separator).
pub open spec fn bare_directory(exe_dir: Seq<char>) -> Seq<char> {
    if exe_dir.len() == 0 {
        exe_dir
    } else {
        exe_dir.drop_last()
    }
}

/// What the PATH file holds: the bare directory where a plain list of directories
/// is read, else a shell line that appends it to `PATH`.
pub open spec fn profile_text(exe_dir: Seq<char>, plain: bool) -> Seq<char> {
    if plain {
        bare_directory(exe_dir)
    } else {
        "export PATH=\"$PATH:"@ + bare_directory(exe_dir) + "\""@
    }
}

/// The text of the file that puts the program's directory on the PATH.
pub fn profile_line(exe_dir: &str, plain: bool) -> (r: String)
    ensures
        r@ == profile_text(exe_dir@, plain),
{
    let mut d = chars_of(exe_dir);
    if d.len() > 0 {
        d.pop();
    }
    assert(d@ =~= bare_directory(exe_dir@));
    if plain {
        return string_of(&d);
    }
    let mut r = chars_of("export PATH=\"$PATH:");
    push_all(&mut r, &d);
    let q = chars_of("\"");
    push_all(&mut r, &q);
    string_of(&r)
}

} // verus!
