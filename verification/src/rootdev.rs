//! The root device that a kernel command line names.

use vstd::prelude::*;

use crate::case::{lowercase, to_lower};
use crate::space::{words, words_of, Class};
use crate::text::{cat2, chars_of, slice_text, starts, starts_with, texts};

pub mod laws;

verus! {

/// What a kernel command line says of the root device.
pub enum Root {
    /// Nothing.
    Unnamed,
    /// It is at a path.
    At(String),
    /// It is the partition with a UUID: at a path, if that is there, or else the
    /// device that meets a criterion.
    Partition(String, String),
}

/// The mathematical form of a [`Root`].
pub enum RootSpec {
    Unnamed,
    At(Seq<char>),
    Partition(Seq<char>, Seq<char>),
}

impl View for Root {
    type V = RootSpec;

    open spec fn view(&self) -> RootSpec {
        match self {
            Root::Unnamed => RootSpec::Unnamed,
            Root::At(path) => RootSpec::At(path@),
            Root::Partition(path, criterion) => RootSpec::Partition(path@, criterion@),
        }
    }
}

/// The value of the first `root=` among words.
pub open spec fn root_word(list: Seq<Seq<char>>) -> Option<Seq<char>>
    decreases list.len(),
{
    if list.len() == 0 {
        None
    } else if starts(list[0], "root="@) {
        Some(list[0].skip(5))
    } else {
        root_word(list.skip(1))
    }
}

/// What the value of `root=` names.
pub open spec fn named(found: Seq<char>) -> RootSpec {
    if starts(found, "/dev/"@) {
        RootSpec::At(found)
    } else if starts(found, "LABEL="@) {
        RootSpec::At("/dev/disk/by-label/"@ + found.skip(6))
    } else if starts(found, "UUID="@) {
        RootSpec::At("/dev/disk/by-uuid/"@ + lowercase(found.skip(5)))
    } else if starts(found, "PARTUUID="@) {
        RootSpec::Partition("/dev/disk/by-partuuid/"@ + lowercase(found.skip(9)), found)
    } else {
        RootSpec::At("/dev/"@ + found)
    }
}

/// The root device that a command line names.
pub open spec fn root_of(cmdline: Seq<char>) -> RootSpec {
    match root_word(words(Class::Space, cmdline)) {
        Some(found) => named(found),
        None => RootSpec::Unnamed,
    }
}

fn behind(s: &str, n: usize) -> (r: String)
    requires
        n <= s@.len(),
    ensures
        r@ == s@.skip(n as int),
{
    let a = chars_of(s);
    assert(a@.subrange(n as int, a@.len() as int) =~= s@.skip(n as int));
    slice_text(&a, n, a.len())
}

fn name_root(found: &str) -> (r: Root)
    ensures
        r@ == named(found@),
{
    proof {
        reveal_strlit("LABEL=");
        reveal_strlit("UUID=");
        reveal_strlit("PARTUUID=");
    }
    if starts_with(found, "/dev/") {
        Root::At(found.to_owned())
    } else if starts_with(found, "LABEL=") {
        Root::At(cat2("/dev/disk/by-label/", behind(found, 6).as_str()))
    } else if starts_with(found, "UUID=") {
        Root::At(cat2("/dev/disk/by-uuid/", to_lower(behind(found, 5).as_str()).as_str()))
    } else if starts_with(found, "PARTUUID=") {
        Root::Partition(
            cat2("/dev/disk/by-partuuid/", to_lower(behind(found, 9).as_str()).as_str()),
            found.to_owned(),
        )
    } else {
        Root::At(cat2("/dev/", found))
    }
}

pub fn root_from_cmdline(cmdline: &str) -> (r: Root)
    ensures
        r@ == root_of(cmdline@),
{
    let list = words_of(Class::Space, cmdline);
    let ghost all = texts(list@);
    let mut i: usize = 0;
    assert(all.skip(0) =~= all);
    while i < list.len()
        invariant
            i <= list@.len(),
            all == texts(list@),
            all == words(Class::Space, cmdline@),
            root_word(all.skip(i as int)) == root_word(all),
        decreases list.len() - i,
    {
        assert(all.skip(i as int)[0] == list@[i as int]@);
        assert(all.skip(i as int).skip(1) =~= all.skip(i + 1));
        if starts_with(list[i].as_str(), "root=") {
            proof {
                reveal_strlit("root=");
            }
            return name_root(behind(list[i].as_str(), 5).as_str());
        }
        i += 1;
    }
    Root::Unnamed
}

}
