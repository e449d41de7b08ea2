//! What the root device of a command line promises.

use vstd::prelude::*;

use crate::case::lowercase;
use crate::rootdev::{named, root_word, RootSpec};
use crate::text::starts;

verus! {

proof fn begins(s: Seq<char>, pat: Seq<char>, rest: Seq<char>)
    requires
        s == pat + rest,
    ensures
        starts(s, pat),
        s.skip(pat.len() as int) == rest,
{
    assert(s.subrange(0, pat.len() as int) =~= pat);
    assert(s.skip(pat.len() as int) =~= rest);
}

/// The first word that names a root is the one that counts.
pub proof fn the_first_root_counts(before: Seq<Seq<char>>, value: Seq<char>, rest: Seq<Seq<char>>)
    requires
        forall|i: int| 0 <= i < before.len() ==> !starts(#[trigger] before[i], "root="@),
    ensures
        root_word(before.push("root="@ + value) + rest) == Some(value),
        root_word(before) is None,
    decreases before.len(),
{
    reveal_strlit("root=");
    let all = before.push("root="@ + value) + rest;
    if before.len() == 0 {
        begins("root="@ + value, "root="@, value);
        assert(all[0] == "root="@ + value);
    } else {
        assert(all[0] == before[0]);
        assert forall|i: int| 0 <= i < before.skip(1).len() implies !starts(#[trigger] before.skip(1)[i], "root="@) by {
            assert(before.skip(1)[i] == before[i + 1]);
        }
        the_first_root_counts(before.skip(1), value, rest);
        assert(all.skip(1) =~= before.skip(1).push("root="@ + value) + rest);
    }
}

/// A root is named by its device, by its label, by the identifier of its filesystem or of
/// its partition, or by the name of its device alone.
pub proof fn how_a_root_is_named(name: Seq<char>)
    ensures
        named("/dev/"@ + name) == RootSpec::At("/dev/"@ + name),
        named("LABEL="@ + name) == RootSpec::At("/dev/disk/by-label/"@ + name),
        named("UUID="@ + name) == RootSpec::At("/dev/disk/by-uuid/"@ + lowercase(name)),
        named("PARTUUID="@ + name) == RootSpec::Partition(
            "/dev/disk/by-partuuid/"@ + lowercase(name),
            "PARTUUID="@ + name,
        ),
        named("s"@ + name) == RootSpec::At("/dev/"@ + ("s"@ + name)),
{
    reveal_strlit("/dev/");
    reveal_strlit("LABEL=");
    reveal_strlit("UUID=");
    reveal_strlit("PARTUUID=");
    reveal_strlit("s");
    begins("/dev/"@ + name, "/dev/"@, name);
    begins("LABEL="@ + name, "LABEL="@, name);
    begins("UUID="@ + name, "UUID="@, name);
    begins("PARTUUID="@ + name, "PARTUUID="@, name);
    let a = "LABEL="@ + name;
    let b = "UUID="@ + name;
    let c = "PARTUUID="@ + name;
    let d = "s"@ + name;
    begins_with_first(a, "/dev/"@);
    begins_with_first(b, "/dev/"@);
    begins_with_first(b, "LABEL="@);
    begins_with_first(c, "/dev/"@);
    begins_with_first(c, "LABEL="@);
    begins_with_first(c, "UUID="@);
    begins_with_first(d, "/dev/"@);
    begins_with_first(d, "LABEL="@);
    begins_with_first(d, "UUID="@);
    begins_with_first(d, "PARTUUID="@);
    assert("/dev/"@[0] == '/' && "LABEL="@[0] == 'L' && "UUID="@[0] == 'U' && "PARTUUID="@[0] == 'P' && "s"@[0] == 's');
}

proof fn begins_with_first(s: Seq<char>, pat: Seq<char>)
    requires
        pat.len() > 0,
        s.len() > 0,
    ensures
        s[0] != pat[0] ==> !starts(s, pat),
{
    if starts(s, pat) {
        assert(s.subrange(0, pat.len() as int)[0] == pat[0]);
    }
}

} // verus!
