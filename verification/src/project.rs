//! Project-record helpers: name and path normalisation and the on-disk
//! layout of a project's files under the workspace root.

use vstd::prelude::*;

use crate::errors::SandboxError;
use crate::path::{any_parent, kept_segments, raw_segments};
use crate::text::{trimmed, trim_text};
use vstd::utf8::encode_utf8;

verus! {

/// The kept segments of a relative path joined with `/`, without a root.
pub open spec fn joined_relative(segs: Seq<Seq<char>>) -> Seq<char>
    decreases segs.len(),
{
    if segs.len() == 0 {
        Seq::<char>::empty()
    } else if segs.len() == 1 {
        segs.last()
    } else {
        joined_relative(segs.drop_last()) + seq!['/'] + segs.last()
    }
}

/// A project name is its trimmed form: non-empty and at most 128 bytes.
pub fn normalize_project_name(name: &str) -> (r: Result<String, SandboxError>)
    ensures
        ({
            let t = trimmed(name@);
            if t.len() == 0 || encode_utf8(t).len() > 128 {
                r matches Err(e) && e is InvalidOperation
            } else {
                r matches Ok(n) && n@ == t
            }
        }),
{
    broadcast use vstd::slice::group_slice_axioms;

    let t = trim_text(name);
    if t.as_str().unicode_len() == 0 {
        return Err(SandboxError::InvalidOperation(String::from_str("project name is required")));
    }
    if t.as_str().as_bytes().len() > 128 {
        return Err(SandboxError::InvalidOperation(String::from_str(
            "project name must be at most 128 characters",
        )));
    }
    Ok(t)
}

/// A project path is trimmed, at most 512 bytes, relative, free of parent
/// segments, and non-empty once current-directory segments are dropped; the
/// result is the kept segments joined with `/`.
pub fn normalize_project_path(path: &str) -> (r: Result<String, SandboxError>)
    ensures
        ({
            let t = trimmed(path@);
            if t.len() == 0 || encode_utf8(t).len() > 512 {
                r matches Err(e) && e is InvalidOperation
            } else if t.first() == '/' {
                r matches Err(e) && e is InvalidOperation
            } else if any_parent(raw_segments(t)) {
                r matches Err(e) && e is InvalidOperation
            } else if kept_segments(raw_segments(t)).len() == 0 {
                r matches Err(e) && e is InvalidOperation
            } else {
                r matches Ok(p) && p@ == joined_relative(kept_segments(raw_segments(t)))
            }
        }),
{
    broadcast use vstd::slice::group_slice_axioms;

    let t = trim_text(path);
    if t.as_str().unicode_len() == 0 {
        return Err(SandboxError::InvalidOperation(String::from_str("project path is required")));
    }
    if t.as_str().as_bytes().len() > 512 {
        return Err(SandboxError::InvalidOperation(String::from_str(
            "project path must be at most 512 characters",
        )));
    }
    proof {
        reveal_strlit("");
        assert(""@ =~= Seq::<char>::empty());
    }
    // resolving under an empty root performs the shared segment policy; the
    // result is the joined segments behind one leading separator, which is
    // stripped again below
    match crate::path::resolve("", t.as_str()) {
        Ok(joined) => {
            if !has_kept_segment(t.as_str()) {
                return Err(SandboxError::InvalidOperation(String::from_str(
                    "project path cannot resolve to empty",
                )));
            }
            proof {
                lemma_joined_relative_strip(kept_segments(raw_segments(t@)));
            }
            let n = joined.as_str().unicode_len();
            Ok(String::from_str(joined.as_str().substring_char(1, n)))
        },
        Err(e) => {
            match e {
                SandboxError::PathTraversal => Err(SandboxError::InvalidOperation(
                    String::from_str("project path cannot traverse parents"),
                )),
                SandboxError::OutsideRoot => Err(SandboxError::InvalidOperation(String::from_str(
                    "project paths must be relative",
                ))),
                _ => Err(SandboxError::InvalidOperation(String::from_str(
                    "project path is required",
                ))),
            }
        },
    }
}

/// Whether the resolver keeps any segment of `path`.
fn has_kept_segment(path: &str) -> (r: bool)
    ensures
        r == (kept_segments(raw_segments(path@)).len() > 0),
{
    let n = path.unicode_len();
    let mut found = false;
    let mut start: usize = 0;
    let mut i: usize = 0;
    proof {
        assert(path@.subrange(0, 0) =~= Seq::<char>::empty());
    }
    while i < n
        invariant
            0 <= start <= i <= n,
            n == path@.len(),
            raw_segments(path@.subrange(0, i as int)).len() >= 1,
            raw_segments(path@.subrange(0, i as int)).last() == path@.subrange(
                start as int,
                i as int,
            ),
            found == (kept_segments(
                raw_segments(path@.subrange(0, i as int)).drop_last(),
            ).len() > 0),
        decreases n - i,
    {
        let ghost pre = path@.subrange(0, i as int);
        let ghost post = path@.subrange(0, i + 1 as int);
        proof {
            assert(post.drop_last() =~= pre);
            crate::path::lemma_raw_segments_nonempty(pre);
        }
        let c = path.get_char(i);
        if c == '/' {
            let seg = path.substring_char(start, i);
            if crate::path::keep_text(seg) {
                found = true;
            }
            proof {
                let rs = raw_segments(pre);
                assert(raw_segments(post) == rs.push(Seq::<char>::empty()));
                assert(raw_segments(post).drop_last() =~= rs);
            }
            start = i + 1;
        } else {
            proof {
                let rs = raw_segments(pre);
                assert(raw_segments(post).drop_last() =~= rs.drop_last());
                assert(raw_segments(post).last() =~= path@.subrange(start as int, i + 1));
            }
        }
        i = i + 1;
        proof {
            if path@[i as int - 1] == '/' {
                assert(raw_segments(path@.subrange(0, i as int)).last() =~= path@.subrange(
                    start as int,
                    i as int,
                ));
            }
        }
    }
    proof {
        assert(path@.subrange(0, n as int) =~= path@);
        crate::path::lemma_raw_segments_nonempty(path@);
    }
    let last = path.substring_char(start, n);
    if crate::path::keep_text(last) {
        found = true;
    }
    found
}

/// Joining segments under an empty root differs from the rootless join only
/// by the leading separator.
proof fn lemma_joined_relative_strip(segs: Seq<Seq<char>>)
    requires
        segs.len() > 0,
    ensures
        crate::path::joined_under(Seq::<char>::empty(), segs) =~= seq!['/'] + joined_relative(
            segs,
        ),
        crate::path::joined_under(Seq::<char>::empty(), segs).subrange(
            1,
            crate::path::joined_under(Seq::<char>::empty(), segs).len() as int,
        ) =~= joined_relative(segs),
    decreases segs.len(),
{
    if segs.len() == 1 {
        assert(crate::path::joined_under(Seq::<char>::empty(), segs.drop_last()) =~= Seq::<
            char,
        >::empty());
    } else {
        lemma_joined_relative_strip(segs.drop_last());
    }
}

/// The first 512 characters of the trimmed description.
pub fn truncate_description(value: &str) -> (r: String)
    ensures
        ({
            let t = trimmed(value@);
            if t.len() <= 512 {
                r@ == t
            } else {
                r@ == t.subrange(0, 512)
            }
        }),
{
    let t = trim_text(value);
    let n = t.as_str().unicode_len();
    if n <= 512 {
        t
    } else {
        String::from_str(t.as_str().substring_char(0, 512))
    }
}

/// The directory of a project's files, relative to the workspace root.
pub fn project_directory_relative(project_id: &str) -> (r: String)
    ensures
        r@ == "projects/"@ + project_id@,
{
    let mut p = String::from_str("projects/");
    p.append(project_id);
    p
}

} // verus!
