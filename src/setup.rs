//! The setup phase: the Dockerfile of the executor image.
use crate::json::{chars_of, push_chars, string_of};
use vstd::prelude::*;

verus! {

/// The line that copies one path of the build context into the image.
pub open spec fn copy_line(p: Seq<char>) -> Seq<char> {
    "COPY "@ + p + " "@ + p
}

/// The copy lines of the paths, one per line.
pub open spec fn copy_lines(ps: Seq<Seq<char>>) -> Seq<char>
    decreases ps.len(),
{
    if ps.len() == 0 {
        Seq::empty()
    } else if ps.len() == 1 {
        copy_line(ps[0])
    } else {
        copy_lines(ps.drop_last()) + "\n"@ + copy_line(ps.last())
    }
}

/// The Dockerfile that builds the executor from the crate in `bin_dir`, with
/// the other paths copied next to it.
pub open spec fn dockerfile_text(bin_dir: Seq<char>, copies: Seq<Seq<char>>) -> Seq<char> {
    "\n    FROM rust:slim-buster\n    WORKDIR /usr/src/executor\n    "@ + copy_lines(copies)
        + "\n    WORKDIR /usr/src/executor/"@ + bin_dir + "\n    RUN cargo install --bin executor --path ."@
}

pub open spec fn texts_view(v: Seq<String>) -> Seq<Seq<char>> {
    v.map_values(|s: String| s@)
}

/// The Dockerfile for a list of paths whose first entry is the executor's
/// crate; `None` when the list is empty.
pub fn dockerfile(paths: &Vec<String>) -> (r: Option<String>)
    ensures
        paths@.len() == 0 <==> r is None,
        r matches Some(t) ==> t@ == dockerfile_text(
            paths@[0]@,
            texts_view(paths@).drop_first(),
        ),
{
    if paths.len() == 0 {
        return None;
    }
    let ghost ps = texts_view(paths@).drop_first();
    let mut out: Vec<char> = chars_of("\n    FROM rust:slim-buster\n    WORKDIR /usr/src/executor\n    ");
    let ghost head = out@;
    let mut k: usize = 1;
    while k < paths.len()
        invariant
            1 <= k <= paths.len(),
            ps == texts_view(paths@).drop_first(),
            out@ == head + copy_lines(ps.subrange(0, k - 1)),
        decreases paths.len() - k,
    {
        let ghost pre = ps.subrange(0, k as int);
        assert(pre.drop_last() =~= ps.subrange(0, k - 1));
        assert(pre.last() == paths@[k as int]@);
        if k > 1 {
            push_chars(&mut out, &chars_of("\n"));
        }
        let p = chars_of(paths[k].as_str());
        push_chars(&mut out, &chars_of("COPY "));
        push_chars(&mut out, &p);
        push_chars(&mut out, &chars_of(" "));
        push_chars(&mut out, &p);
        if k == 1 {
            assert(pre =~= seq![paths@[1]@]);
            assert(out@ =~= head + copy_lines(pre));
        } else {
            assert(out@ =~= head + copy_lines(pre));
        }
        k = k + 1;
    }
    assert(ps.subrange(0, k - 1) =~= ps);
    push_chars(&mut out, &chars_of("\n    WORKDIR /usr/src/executor/"));
    push_chars(&mut out, &chars_of(paths[0].as_str()));
    push_chars(&mut out, &chars_of("\n    RUN cargo install --bin executor --path ."));
    assert(out@ =~= dockerfile_text(paths@[0]@, ps));
    Some(string_of(&out))
}

} // verus!
