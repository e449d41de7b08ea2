//! Paths as text.

use vstd::prelude::*;

use crate::text::{
    cat2, cat3, chars_of, ends, ends_with, rsplit_at, rsplit_once, slice_text, starts, starts_with,
};

pub mod laws;

verus! {

/// A name in a directory.
pub open spec fn joined(directory: Seq<char>, name: Seq<char>) -> Seq<char> {
    if ends(directory, "/"@) {
        directory + name
    } else {
        directory + "/"@ + name
    }
}

pub fn join_path(directory: &str, name: &str) -> (r: String)
    ensures
        r@ == joined(directory@, name@),
{
    if ends_with(directory, "/") {
        cat2(directory, name)
    } else {
        cat3(directory, "/", name)
    }
}

/// What stands before the last slash: the root where that is nothing, and nothing
/// where there is no slash.
pub open spec fn parent(path: Seq<char>) -> Seq<char> {
    match rsplit_once(path, '/') {
        Some((head, _)) => if head.len() == 0 {
            "/"@
        } else {
            head
        },
        None => Seq::empty(),
    }
}

pub fn dirname(path: &str) -> (r: String)
    ensures
        r@ == parent(path@),
{
    match rsplit_at(path, '/') {
        Some((head, _)) => if head.as_str().is_empty() {
            "/".to_owned()
        } else {
            head
        },
        None => String::new(),
    }
}

/// What stands behind the last slash.
pub open spec fn last_name(path: Seq<char>) -> Seq<char> {
    match rsplit_once(path, '/') {
        Some((_, tail)) => tail,
        None => path,
    }
}

pub fn basename(path: &str) -> (r: String)
    ensures
        r@ == last_name(path@),
{
    match rsplit_at(path, '/') {
        Some((_, tail)) => tail,
        None => path.to_owned(),
    }
}

/// A path behind a directory: an absolute path stands for itself, and behind
/// nothing comes no slash.
pub open spec fn path_joined(base: Seq<char>, name: Seq<char>) -> Seq<char> {
    if starts(name, "/"@) {
        name
    } else if base.len() == 0 || ends(base, "/"@) {
        base + name
    } else {
        base + "/"@ + name
    }
}

pub fn path_join(base: &str, name: &str) -> (r: String)
    ensures
        r@ == path_joined(base@, name@),
{
    if starts_with(name, "/") {
        name.to_owned()
    } else if base.is_empty() || ends_with(base, "/") {
        cat2(base, name)
    } else {
        cat3(base, "/", name)
    }
}

/// A path without the slashes it begins with.
pub open spec fn unslashed(path: Seq<char>) -> Seq<char>
    decreases path.len(),
{
    if path.len() > 0 && path[0] == '/' {
        unslashed(path.skip(1))
    } else {
        path
    }
}

/// A path within a tree that stands for the machine's.
pub open spec fn within(root: Seq<char>, path: Seq<char>) -> Seq<char> {
    path_joined(root, unslashed(path))
}

pub fn path_within(root: &str, path: &str) -> (r: String)
    ensures
        r@ == within(root@, path@),
{
    let chars = chars_of(path);
    let ghost all = chars@;
    let mut i: usize = 0;
    assert(all.skip(0) =~= all);
    while i < chars.len() && chars[i] == '/'
        invariant
            i <= chars@.len(),
            all == chars@,
            unslashed(all.skip(i as int)) == unslashed(all),
        decreases chars.len() - i,
    {
        assert(all.skip(i as int).skip(1) =~= all.skip(i + 1));
        i += 1;
    }
    let rest = slice_text(&chars, i, chars.len());
    assert(rest@ =~= all.skip(i as int));
    path_join(root, rest.as_str())
}

/// In the machine's own tree a path stands for itself.
pub proof fn own_tree_keeps_paths(path: Seq<char>)
    requires
        path.len() > 0,
        path[0] == '/',
        path.len() > 1 ==> path[1] != '/',
    ensures
        within("/"@, path) == path,
{
    reveal_strlit("/");
    let rest = path.skip(1);
    assert(unslashed(path) == unslashed(rest));
    assert(unslashed(rest) == rest);
    assert(!starts(rest, "/"@)) by {
        if starts(rest, "/"@) {
            assert(rest.subrange(0, 1)[0] == '/');
        }
    }
    assert("/"@.subrange(0, 1) =~= "/"@);
    assert(ends("/"@, "/"@));
    assert("/"@ + rest =~= path);
}

}
