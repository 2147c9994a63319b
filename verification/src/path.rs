//! The path resolver: anchors a user-supplied relative path under an
//! absolute workspace root, refusing absolute inputs and parent-directory
//! traversal.

use vstd::prelude::*;

use crate::errors::SandboxError;
use crate::errors::invalid_operation_with;

verus! {

/// The runs of characters between `/` separators, in order. An empty input
/// yields one empty run; separators at the edges yield empty runs beside
/// them.
pub open spec fn raw_segments(s: Seq<char>) -> Seq<Seq<char>>
    decreases s.len(),
{
    if s.len() == 0 {
        seq![Seq::<char>::empty()]
    } else {
        let prev = raw_segments(s.drop_last());
        if s.last() == '/' {
            prev.push(Seq::<char>::empty())
        } else {
            prev.update(prev.len() - 1, prev.last().push(s.last()))
        }
    }
}

pub proof fn lemma_raw_segments_nonempty(s: Seq<char>)
    ensures
        raw_segments(s).len() >= 1,
    decreases s.len(),
{
    if s.len() > 0 {
        lemma_raw_segments_nonempty(s.drop_last());
    }
}

/// A run that names the parent directory.
pub open spec fn parent_segment(seg: Seq<char>) -> bool {
    seg == seq!['.', '.']
}

/// A run the resolver keeps: not empty, not the current directory, not the
/// parent directory.
pub open spec fn keep_segment(seg: Seq<char>) -> bool {
    seg.len() > 0 && seg != seq!['.'] && !parent_segment(seg)
}

/// Whether any run of `segs` names the parent directory.
pub open spec fn any_parent(segs: Seq<Seq<char>>) -> bool
    decreases segs.len(),
{
    segs.len() > 0 && (parent_segment(segs.last()) || any_parent(segs.drop_last()))
}

/// The runs of `segs` that the resolver keeps, in order.
pub open spec fn kept_segments(segs: Seq<Seq<char>>) -> Seq<Seq<char>>
    decreases segs.len(),
{
    if segs.len() == 0 {
        Seq::<Seq<char>>::empty()
    } else if keep_segment(segs.last()) {
        kept_segments(segs.drop_last()).push(segs.last())
    } else {
        kept_segments(segs.drop_last())
    }
}

/// `base` extended by one `/`-separated component for each of `segs`.
pub open spec fn joined_under(base: Seq<char>, segs: Seq<Seq<char>>) -> Seq<char>
    decreases segs.len(),
{
    if segs.len() == 0 {
        base
    } else {
        joined_under(base, segs.drop_last()) + seq!['/'] + segs.last()
    }
}

/// The root always remains a textual prefix of whatever is joined under it.
pub proof fn lemma_joined_under_prefix(base: Seq<char>, segs: Seq<Seq<char>>)
    ensures
        joined_under(base, segs).len() >= base.len(),
        joined_under(base, segs).subrange(0, base.len() as int) == base,
    decreases segs.len(),
{
    if segs.len() == 0 {
        assert(base.subrange(0, base.len() as int) =~= base);
    } else {
        lemma_joined_under_prefix(base, segs.drop_last());
        assert(joined_under(base, segs).subrange(0, base.len() as int) =~= base);
    }
}

/// Checks that the workspace root is an absolute path and hands it back.
///
/// Returns `InvalidOperation` on a relative (or empty) root.
pub fn ensure_absolute_base(base_dir: &str) -> (r: Result<String, SandboxError>)
    ensures
        base_dir@.len() > 0 && base_dir@.first() == '/' ==> (r matches Ok(p) && p@ == base_dir@),
        !(base_dir@.len() > 0 && base_dir@.first() == '/') ==> (r matches Err(e)
            && invalid_operation_with(e, "sandbox base directory must be absolute"@)),
{
    if base_dir.unicode_len() > 0 && base_dir.get_char(0) == '/' {
        Ok(String::from_str(base_dir))
    } else {
        Err(SandboxError::InvalidOperation(String::from_str(
            "sandbox base directory must be absolute",
        )))
    }
}

/// Resolves `relative` under `base_dir`.
///
/// Empty input is `InvalidOperation`; an absolute input is `OutsideRoot`;
/// a parent-directory segment anywhere is `PathTraversal`. Current-directory
/// segments and empty runs are dropped; what remains is joined under the
/// root, which therefore stays a prefix of the result.
pub fn resolve(base_dir: &str, relative: &str) -> (r: Result<String, SandboxError>)
    ensures
        resolve_matches(base_dir@, relative@, r),
{
    let n = relative.unicode_len();
    if n == 0 {
        return Err(SandboxError::InvalidOperation(String::from_str("path must not be empty")));
    }
    if relative.get_char(0) == '/' {
        return Err(SandboxError::OutsideRoot);
    }
    let mut segs: Vec<String> = Vec::new();
    let mut saw_parent = false;
    let mut start: usize = 0;
    let mut i: usize = 0;
    proof {
        assert(relative@.subrange(0, 0) =~= Seq::<char>::empty());
        assert(relative@.subrange(0, 0).len() == 0);
    }
    while i < n
        invariant
            0 <= start <= i <= n,
            n == relative@.len(),
            raw_segments(relative@.subrange(0, i as int)).len() >= 1,
            raw_segments(relative@.subrange(0, i as int)).last() == relative@.subrange(
                start as int,
                i as int,
            ),
            segs.deep_view() == kept_segments(
                raw_segments(relative@.subrange(0, i as int)).drop_last(),
            ),
            saw_parent == any_parent(raw_segments(relative@.subrange(0, i as int)).drop_last()),
        decreases n - i,
    {
        let ghost pre = relative@.subrange(0, i as int);
        let ghost post = relative@.subrange(0, i + 1 as int);
        proof {
            assert(post.drop_last() =~= pre);
            lemma_raw_segments_nonempty(pre);
        }
        let c = relative.get_char(i);
        if c == '/' {
            let seg = relative.substring_char(start, i);
            if is_parent_text(seg) {
                saw_parent = true;
            } else if keep_text(seg) {
                segs.push(String::from_str(seg));
            }
            proof {
                let rs = raw_segments(pre);
                assert(raw_segments(post) == rs.push(Seq::<char>::empty()));
                assert(raw_segments(post).drop_last() =~= rs);
                assert(kept_segments(rs) == if keep_segment(rs.last()) {
                    kept_segments(rs.drop_last()).push(rs.last())
                } else {
                    kept_segments(rs.drop_last())
                });
                assert(segs.deep_view() =~= kept_segments(raw_segments(post).drop_last()));
            }
            start = i + 1;
        } else {
            proof {
                let rs = raw_segments(pre);
                assert(raw_segments(post) == rs.update(
                    rs.len() - 1,
                    rs.last().push(relative@[i as int]),
                ));
                assert(raw_segments(post).drop_last() =~= rs.drop_last());
                assert(raw_segments(post).last() =~= relative@.subrange(start as int, i + 1));
            }
        }
        i = i + 1;
        proof {
            if relative@[i as int - 1] == '/' {
                assert(raw_segments(relative@.subrange(0, i as int)).last() =~= relative@.subrange(
                    start as int,
                    i as int,
                ));
            }
        }
    }
    proof {
        assert(relative@.subrange(0, n as int) =~= relative@);
    }
    let last = relative.substring_char(start, n);
    let ghost rs = raw_segments(relative@);
    proof {
        lemma_raw_segments_nonempty(relative@);
    }
    if saw_parent || is_parent_text(last) {
        return Err(SandboxError::PathTraversal);
    }
    if keep_text(last) {
        segs.push(String::from_str(last));
    }
    proof {
        assert(kept_segments(rs) == if keep_segment(rs.last()) {
            kept_segments(rs.drop_last()).push(rs.last())
        } else {
            kept_segments(rs.drop_last())
        });
        assert(segs.deep_view() =~= kept_segments(rs));
    }
    let mut out = String::from_str(base_dir);
    let mut j: usize = 0;
    proof {
        assert(segs.deep_view().subrange(0, 0) =~= Seq::<Seq<char>>::empty());
    }
    while j < segs.len()
        invariant
            j <= segs.len(),
            out@ == joined_under(base_dir@, segs.deep_view().subrange(0, j as int)),
        decreases segs.len() - j,
    {
        out.append("/");
        out.append(segs[j].as_str());
        proof {
            reveal_strlit("/");
            let dv = segs.deep_view();
            assert(dv.subrange(0, j + 1 as int).drop_last() =~= dv.subrange(0, j as int));
            assert(dv.subrange(0, j + 1 as int).last() == dv[j as int]);
            assert("/"@ =~= seq!['/']);
            assert(out@ =~= joined_under(base_dir@, dv.subrange(0, j + 1 as int)));
        }
        j = j + 1;
    }
    proof {
        assert(segs.deep_view().subrange(0, segs.deep_view().len() as int) =~= segs.deep_view());
    }
    Ok(out)
}

/// Whether [`resolve`] rejects `relative` (under any root).
pub open spec fn resolve_fails(relative: Seq<char>) -> bool {
    relative.len() == 0 || relative.first() == '/' || any_parent(raw_segments(relative))
}

/// Relates a result of [`resolve`] to its inputs, allowing for the owned
/// error message string.
pub open spec fn resolve_matches(
    base: Seq<char>,
    relative: Seq<char>,
    r: Result<String, SandboxError>,
) -> bool {
    if relative.len() == 0 {
        r matches Err(e) && invalid_operation_with(e, "path must not be empty"@)
    } else if relative.first() == '/' {
        r == Err::<String, SandboxError>(SandboxError::OutsideRoot)
    } else if any_parent(raw_segments(relative)) {
        r == Err::<String, SandboxError>(SandboxError::PathTraversal)
    } else {
        r matches Ok(p) && p@ == joined_under(base, kept_segments(raw_segments(relative)))
    }
}

/// Whether `seg` reads `..`.
fn is_parent_text(seg: &str) -> (r: bool)
    ensures
        r == parent_segment(seg@),
{
    let n = seg.unicode_len();
    if n != 2 {
        proof {
            assert(seg@ =~= seq!['.', '.'] ==> seg@.len() == 2);
        }
        return false;
    }
    let r = seg.get_char(0) == '.' && seg.get_char(1) == '.';
    proof {
        if r {
            assert(seg@ =~= seq!['.', '.']);
        } else {
            assert(seg@ != seq!['.', '.']);
        }
    }
    r
}

/// Whether the resolver keeps `seg`.
pub fn keep_text(seg: &str) -> (r: bool)
    ensures
        r == keep_segment(seg@),
{
    let n = seg.unicode_len();
    if n == 0 {
        return false;
    }
    if n == 1 && seg.get_char(0) == '.' {
        proof {
            assert(seg@ =~= seq!['.']);
        }
        return false;
    }
    if is_parent_text(seg) {
        return false;
    }
    proof {
        assert(seg@ != seq!['.']);
    }
    true
}

} // verus!
