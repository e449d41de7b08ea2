//! What the functions on paths promise.

use vstd::prelude::*;

use crate::paths::{joined, last_name, parent};
use crate::text::laws::last_found;

verus! {

/// A path is a directory and a name behind the last slash.
pub proof fn names_behind_slashes(directory: Seq<char>, name: Seq<char>)
    requires
        !name.contains('/'),
    ensures
        last_name(directory + seq!['/'] + name) == name,
        directory.len() > 0 ==> parent(directory + seq!['/'] + name) == directory,
        directory.len() == 0 ==> parent(directory + seq!['/'] + name) == "/"@,
{
    last_found(directory, '/', name);
}

/// Exactly one slash comes between a directory and a name.
pub proof fn below_a_directory(directory: Seq<char>, name: Seq<char>)
    ensures
        directory.len() == 0 || directory.last() != '/' ==> joined(directory, name) == directory + "/"@ + name,
        directory.len() > 0 && directory.last() == '/' ==> joined(directory, name) == directory + name,
{
    reveal_strlit("/");
    let slash = "/"@;
    if directory.len() > 0 {
        let end = directory.subrange(directory.len() - 1, directory.len() as int);
        assert(end[0] == directory.last());
        if directory.last() == '/' {
            assert(end =~= slash);
        }
    }
}

/// What was put below a directory is found there again.
pub proof fn a_name_and_its_directory(directory: Seq<char>, name: Seq<char>)
    requires
        !name.contains('/'),
        directory.len() > 0,
        directory.last() != '/',
    ensures
        parent(joined(directory, name)) == directory,
        last_name(joined(directory, name)) == name,
{
    reveal_strlit("/");
    below_a_directory(directory, name);
    assert("/"@ =~= seq!['/']);
    names_behind_slashes(directory, name);
}

} // verus!
