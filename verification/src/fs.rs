//! The filesystem sandbox policy: every operation first anchors its path
//! under the workspace root, and reads and writes are held to a size quota.
//!
//! The methods here authorise an operation and return the absolute target it
//! may touch; the runtime shell around the library performs the actual disk
//! access and feeds outcomes back through the helpers at the bottom.

use vstd::prelude::*;

use crate::codec::utf8_decode;
use crate::errors::SandboxError;
use crate::path::{ensure_absolute_base, resolve, resolve_matches};
use crate::text::{lex_le, lemma_lex_le_total, lemma_lex_le_trans};
use vstd::utf8::valid_utf8;

verus! {

/// Immutable settings of the filesystem sandbox: the absolute workspace root
/// and the byte quota for a single read or write.
pub struct SandboxConfig {
    root: String,
    max_file_size: u64,
}

impl SandboxConfig {
    pub closed spec fn spec_root(&self) -> Seq<char> {
        self.root@
    }

    pub closed spec fn spec_max_file_size(&self) -> u64 {
        self.max_file_size
    }

    /// Accepts only an absolute root.
    pub fn new(root: &str, max_file_size: u64) -> (r: Result<SandboxConfig, SandboxError>)
        ensures
            root@.len() > 0 && root@.first() == '/' ==> (r matches Ok(c) && c.spec_root() == root@
                && c.spec_max_file_size() == max_file_size),
            !(root@.len() > 0 && root@.first() == '/') ==> r is Err,
    {
        let anchored = ensure_absolute_base(root)?;
        Ok(SandboxConfig { root: anchored, max_file_size })
    }

    pub fn root(&self) -> (r: &str)
        ensures
            r@ == self.spec_root(),
    {
        self.root.as_str()
    }

    pub fn max_file_size(&self) -> (r: u64)
        ensures
            r == self.spec_max_file_size(),
    {
        self.max_file_size
    }
}

/// One directory entry as a listing reports it.
#[derive(Debug, Clone, PartialEq, Eq)]
pub struct FileEntry {
    pub name: String,
    pub is_dir: bool,
    pub size: u64,
}

/// What the runtime reports back from a host filesystem call.
#[derive(Debug, Clone, PartialEq, Eq)]
pub enum IoFailure {
    NotFound,
    Other(String),
}

/// The filesystem sandbox. Stateless beyond its configuration: every
/// decision is a function of the configuration and the arguments.
pub struct SandboxFs {
    config: SandboxConfig,
}

impl SandboxFs {
    pub closed spec fn spec_config(&self) -> SandboxConfig {
        self.config
    }

    pub open spec fn spec_root(&self) -> Seq<char> {
        self.spec_config().spec_root()
    }

    pub open spec fn spec_max_file_size(&self) -> u64 {
        self.spec_config().spec_max_file_size()
    }

    pub fn new(config: SandboxConfig) -> (r: SandboxFs)
        ensures
            r.spec_config() == config,
    {
        SandboxFs { config }
    }

    pub fn config(&self) -> (r: &SandboxConfig)
        ensures
            *r == self.spec_config(),
    {
        &self.config
    }

    /// Authorises writing `data` at `path`: the buffer must be within the
    /// size quota and the path must resolve under the root. On success the
    /// returned absolute target is where the bytes may be placed; on failure
    /// nothing may be written.
    pub fn write(&self, path: &str, data: &[u8]) -> (r: Result<String, SandboxError>)
        ensures
            data@.len() > self.spec_max_file_size() ==> r == Err::<String, SandboxError>(
                SandboxError::FileTooLarge(data@.len() as u64),
            ),
            data@.len() <= self.spec_max_file_size() ==> resolve_matches(
                self.spec_root(),
                path@,
                r,
            ),
    {
        if data.len() as u64 > self.config.max_file_size {
            return Err(SandboxError::FileTooLarge(data.len() as u64));
        }
        resolve(self.config.root.as_str(), path)
    }

    /// Authorises reading `path`, resolving it under the root. The size of
    /// the file, known only after a stat, is checked with
    /// [`SandboxFs::check_file_size`].
    pub fn read(&self, path: &str) -> (r: Result<String, SandboxError>)
        ensures
            resolve_matches(self.spec_root(), path@, r),
    {
        resolve(self.config.root.as_str(), path)
    }

    /// Holds a stat'ed file size to the read quota.
    pub fn check_file_size(&self, size: u64) -> (r: Result<(), SandboxError>)
        ensures
            size <= self.spec_max_file_size() ==> r is Ok,
            size > self.spec_max_file_size() ==> r == Err::<(), SandboxError>(
                SandboxError::FileTooLarge(size),
            ),
    {
        if size > self.config.max_file_size {
            Err(SandboxError::FileTooLarge(size))
        } else {
            Ok(())
        }
    }

    /// Authorises removing `path`. Success never depends on whether the
    /// target exists; a missing target is not an error.
    pub fn delete(&self, path: &str) -> (r: Result<String, SandboxError>)
        ensures
            resolve_matches(self.spec_root(), path@, r),
    {
        resolve(self.config.root.as_str(), path)
    }

    /// Authorises creating the directory `path` and its missing parents.
    pub fn mkdir(&self, path: &str) -> (r: Result<String, SandboxError>)
        ensures
            resolve_matches(self.spec_root(), path@, r),
    {
        resolve(self.config.root.as_str(), path)
    }

    /// Authorises listing the directory `path`.
    pub fn list(&self, path: &str) -> (r: Result<String, SandboxError>)
        ensures
            resolve_matches(self.spec_root(), path@, r),
    {
        resolve(self.config.root.as_str(), path)
    }

    /// Authorises copying the file at `src` to `dst`. Directories may not be
    /// copied: the runtime confirms the source kind with
    /// [`SandboxFs::confirm_copy_source`].
    pub fn copy_file(&self, src: &str, dst: &str) -> (r: Result<(String, String), SandboxError>)
        ensures
            r matches Ok((s, d)) ==> resolve_matches(self.spec_root(), src@, Ok(s))
                && resolve_matches(self.spec_root(), dst@, Ok(d)),
            r matches Err(e) ==> resolve_matches(self.spec_root(), src@, Err(e))
                || resolve_matches(self.spec_root(), dst@, Err(e)),
    {
        let s = resolve(self.config.root.as_str(), src)?;
        let d = resolve(self.config.root.as_str(), dst)?;
        Ok((s, d))
    }

    /// Rejects a copy whose resolved source turned out to be a directory.
    pub fn confirm_copy_source(&self, source_is_dir: bool) -> (r: Result<(), SandboxError>)
        ensures
            r is Ok <==> !source_is_dir,
            source_is_dir ==> (r matches Err(e) && e is InvalidOperation),
    {
        if source_is_dir {
            Err(SandboxError::InvalidOperation(String::from_str(
                "copying directories is not supported",
            )))
        } else {
            Ok(())
        }
    }

    /// Authorises renaming `src` to `dst`; missing parents of the
    /// destination are created by the runtime.
    pub fn rename(&self, src: &str, dst: &str) -> (r: Result<(String, String), SandboxError>)
        ensures
            r matches Ok((s, d)) ==> resolve_matches(self.spec_root(), src@, Ok(s))
                && resolve_matches(self.spec_root(), dst@, Ok(d)),
            r matches Err(e) ==> resolve_matches(self.spec_root(), src@, Err(e))
                || resolve_matches(self.spec_root(), dst@, Err(e)),
    {
        let s = resolve(self.config.root.as_str(), src)?;
        let d = resolve(self.config.root.as_str(), dst)?;
        Ok((s, d))
    }
}

/// Folds the host's answer to a removal into the sandbox's: a missing target
/// counts as success, any other failure is wrapped as `Io`.
pub fn absorb_delete_result(host: Result<(), IoFailure>) -> (r: Result<(), SandboxError>)
    ensures
        host is Ok ==> r is Ok,
        host == Err::<(), IoFailure>(IoFailure::NotFound) ==> r is Ok,
        (host matches Err(f) && f is Other) ==> (r matches Err(e) && (
        e matches SandboxError::Io(w) && w@ == ((host->Err_0)->Other_0)@)),
{
    match host {
        Ok(()) => Ok(()),
        Err(IoFailure::NotFound) => Ok(()),
        Err(IoFailure::Other(m)) => Err(SandboxError::Io(m)),
    }
}

/// Decodes a directory-entry name the host reports as raw bytes; names that
/// are not UTF-8 are an `InvalidOperation`.
pub fn decode_entry_name(bytes: Vec<u8>) -> (r: Result<String, SandboxError>)
    ensures
        r is Ok <==> valid_utf8(bytes@),
        !valid_utf8(bytes@) ==> (r matches Err(e) && e is InvalidOperation),
{
    match utf8_decode(bytes) {
        Ok(name) => Ok(name),
        Err(_) => Err(SandboxError::InvalidOperation(String::from_str(
            "directory entry name is not valid utf-8",
        ))),
    }
}

/// Entries in ascending lexicographic order of their names.
pub open spec fn sorted_entries(s: Seq<FileEntry>) -> bool {
    forall|i: int, j: int| 0 <= i < j < s.len() ==> lex_le(s[i].name@, s[j].name@)
}

/// `e` placed at its position in `s`, counted from the back.
pub open spec fn insert_sorted_spec(e: FileEntry, s: Seq<FileEntry>) -> Seq<FileEntry>
    decreases s.len(),
{
    if s.len() == 0 {
        seq![e]
    } else if lex_le(s.last().name@, e.name@) {
        s.push(e)
    } else {
        insert_sorted_spec(e, s.drop_last()).push(s.last())
    }
}

/// Insertion sort of a listing, as a sequence function.
pub open spec fn sort_entries_spec(s: Seq<FileEntry>) -> Seq<FileEntry>
    decreases s.len(),
{
    if s.len() == 0 {
        Seq::<FileEntry>::empty()
    } else {
        insert_sorted_spec(s.last(), sort_entries_spec(s.drop_last()))
    }
}

proof fn lemma_insert_sorted_len(e: FileEntry, s: Seq<FileEntry>)
    ensures
        insert_sorted_spec(e, s).len() == s.len() + 1,
    decreases s.len(),
{
    if s.len() > 0 && !lex_le(s.last().name@, e.name@) {
        lemma_insert_sorted_len(e, s.drop_last());
    }
}

proof fn lemma_insert_sorted_multiset(e: FileEntry, s: Seq<FileEntry>)
    ensures
        insert_sorted_spec(e, s).to_multiset() == s.to_multiset().insert(e),
    decreases s.len(),
{
    broadcast use vstd::seq_lib::group_to_multiset_ensures;

    if s.len() == 0 {
        assert(insert_sorted_spec(e, s) =~= Seq::<FileEntry>::empty().push(e));
        assert(insert_sorted_spec(e, s).to_multiset() =~= s.to_multiset().insert(e));
    } else if lex_le(s.last().name@, e.name@) {
        assert(s.push(e).to_multiset() =~= s.to_multiset().insert(e));
    } else {
        lemma_insert_sorted_multiset(e, s.drop_last());
        assert(s.drop_last().push(s.last()) =~= s);
        assert(insert_sorted_spec(e, s).to_multiset() =~= s.to_multiset().insert(e));
    }
}

proof fn lemma_insert_sorted_sorted(e: FileEntry, s: Seq<FileEntry>)
    requires
        sorted_entries(s),
    ensures
        sorted_entries(insert_sorted_spec(e, s)),
    decreases s.len(),
{
    if s.len() == 0 {
    } else if lex_le(s.last().name@, e.name@) {
        assert forall|i: int, j: int|
            0 <= i < j < s.push(e).len() implies lex_le(
            s.push(e)[i].name@,
            s.push(e)[j].name@,
        ) by {
            if j == s.len() as int {
                if i < s.len() - 1 {
                    lemma_lex_le_trans(s[i].name@, s.last().name@, e.name@);
                }
            }
        }
    } else {
        assert(forall|i: int, j: int|
            0 <= i < j < s.drop_last().len() ==> lex_le(
                s.drop_last()[i].name@,
                s.drop_last()[j].name@,
            ));
        lemma_insert_sorted_sorted(e, s.drop_last());
        lemma_insert_sorted_len(e, s.drop_last());
        let t = insert_sorted_spec(e, s.drop_last());
        lemma_lex_le_total(s.last().name@, e.name@);
        assert forall|k: int| 0 <= k < t.len() implies lex_le(t[k].name@, s.last().name@) by {
            lemma_insert_sorted_members(e, s.drop_last(), k);
            if t[k] == e {
            } else {
                let m = choose|m: int| 0 <= m < s.drop_last().len() && s.drop_last()[m] == t[k];
                lemma_lex_le_total(s[m].name@, s.last().name@);
                if !lex_le(s[m].name@, s.last().name@) {
                    assert(lex_le(s[m].name@, s.last().name@));
                }
            }
        }
        assert forall|i: int, j: int|
            0 <= i < j < t.push(s.last()).len() implies lex_le(
            t.push(s.last())[i].name@,
            t.push(s.last())[j].name@,
        ) by {
            if j < t.len() as int {
            } else {
                assert(lex_le(t[i].name@, s.last().name@));
            }
        }
    }
}

/// Everything in the inserted sequence is the new element or one of the old.
proof fn lemma_insert_sorted_members(e: FileEntry, s: Seq<FileEntry>, k: int)
    requires
        0 <= k < insert_sorted_spec(e, s).len(),
    ensures
        insert_sorted_spec(e, s)[k] == e || exists|m: int|
            0 <= m < s.len() && s[m] == insert_sorted_spec(e, s)[k],
    decreases s.len(),
{
    lemma_insert_sorted_len(e, s);
    if s.len() == 0 {
    } else if lex_le(s.last().name@, e.name@) {
        if k < s.len() as int {
            assert(s[k] == insert_sorted_spec(e, s)[k]);
        }
    } else {
        lemma_insert_sorted_len(e, s.drop_last());
        if k < insert_sorted_spec(e, s.drop_last()).len() as int {
            lemma_insert_sorted_members(e, s.drop_last(), k);
            if insert_sorted_spec(e, s.drop_last())[k] != e {
                let m = choose|m: int|
                    0 <= m < s.drop_last().len() && s.drop_last()[m] == insert_sorted_spec(
                        e,
                        s.drop_last(),
                    )[k];
                assert(s[m] == insert_sorted_spec(e, s)[k]);
            }
        } else {
            assert(s[s.len() - 1] == insert_sorted_spec(e, s)[k]);
        }
    }
}

/// The sort leaves a listing sorted.
pub proof fn lemma_sort_entries_sorted(s: Seq<FileEntry>)
    ensures
        sorted_entries(sort_entries_spec(s)),
    decreases s.len(),
{
    if s.len() > 0 {
        lemma_sort_entries_sorted(s.drop_last());
        lemma_insert_sorted_sorted(s.last(), sort_entries_spec(s.drop_last()));
    }
}

/// The sort keeps exactly the entries it was given.
pub proof fn lemma_sort_entries_multiset(s: Seq<FileEntry>)
    ensures
        sort_entries_spec(s).to_multiset() == s.to_multiset(),
    decreases s.len(),
{
    broadcast use vstd::seq_lib::group_to_multiset_ensures;

    if s.len() > 0 {
        lemma_sort_entries_multiset(s.drop_last());
        lemma_insert_sorted_multiset(s.last(), sort_entries_spec(s.drop_last()));
        assert(s.drop_last().push(s.last()) =~= s);
        assert(s.drop_last().push(s.last()).to_multiset() =~= s.drop_last().to_multiset().insert(
            s.last(),
        ));
    }
}

/// Sorts a listing ascending by name. The result is pinned to
/// [`sort_entries_spec`], so re-sorting an unchanged listing returns the
/// identical sequence.
pub fn order_listing(entries: Vec<FileEntry>) -> (r: Vec<FileEntry>)
    ensures
        r@ == sort_entries_spec(entries@),
        sorted_entries(r@),
        r@.to_multiset() == entries@.to_multiset(),
{
    proof {
        lemma_sort_entries_sorted(entries@);
        lemma_sort_entries_multiset(entries@);
    }
    let ghost input = entries@;
    let mut rest = entries;
    let mut out: Vec<FileEntry> = Vec::new();
    proof {
        assert(input.subrange(0, 0) =~= Seq::<FileEntry>::empty());
        assert(rest@ =~= input.subrange(0, input.len() as int));
    }
    while rest.len() > 0
        invariant
            rest@.len() <= input.len(),
            rest@ == input.subrange(input.len() - rest@.len(), input.len() as int),
            out@ == sort_entries_spec(input.subrange(0, input.len() - rest@.len())),
        decreases rest.len(),
    {
        let ghost taken = input.len() - rest@.len();
        let ghost done = input.subrange(0, taken);
        let e = rest.remove(0);
        proof {
            assert(e == input[taken]);
            assert(rest@ =~= input.subrange(input.len() - rest@.len(), input.len() as int));
            assert(input.subrange(0, taken + 1).drop_last() =~= done);
            assert(input.subrange(0, taken + 1).last() == input[taken]);
        }
        let mut k = out.len();
        while k > 0 && !str_le_entry(&out[k - 1], &e)
            invariant
                k <= out.len(),
                out@ == sort_entries_spec(done),
                forall|m: int| k <= m < out@.len() ==> !lex_le(out@[m].name@, e.name@),
            decreases k,
        {
            k = k - 1;
        }
        proof {
            lemma_insert_at_position(e, out@, k as int);
        }
        out.insert(k, e);
        proof {
            assert(out@ =~= insert_sorted_spec(input[taken], sort_entries_spec(done)));
        }
    }
    proof {
        assert(input.subrange(0, input.len() as int) =~= input);
    }
    out
}

/// When everything from `k` on is strictly above `e` and the element before
/// `k` is not, inserting `e` at `k` is what the back-recursive insertion
/// computes.
proof fn lemma_insert_at_position(e: FileEntry, s: Seq<FileEntry>, k: int)
    requires
        0 <= k <= s.len(),
        forall|m: int| k <= m < s.len() ==> !lex_le(s[m].name@, e.name@),
        k > 0 ==> lex_le(s[k - 1].name@, e.name@),
    ensures
        insert_sorted_spec(e, s) == s.insert(k, e),
    decreases s.len(),
{
    if s.len() == 0 {
        assert(insert_sorted_spec(e, s) =~= s.insert(0, e));
    } else if lex_le(s.last().name@, e.name@) {
        assert(k == s.len() as int);
        assert(insert_sorted_spec(e, s) =~= s.insert(k, e));
    } else {
        assert(k < s.len() as int);
        lemma_insert_at_position(e, s.drop_last(), k);
        assert(insert_sorted_spec(e, s) == insert_sorted_spec(e, s.drop_last()).push(s.last()));
        assert(s.drop_last().insert(k, e).push(s.last()) =~= s.insert(k, e));
    }
}

/// Compares two entries by name.
fn str_le_entry(a: &FileEntry, b: &FileEntry) -> (r: bool)
    ensures
        r == lex_le(a.name@, b.name@),
{
    crate::text::str_le(a.name.as_str(), b.name.as_str())
}

/// Everything the sandbox admits lies under the workspace root: a resolved
/// target always keeps the root as a textual prefix, so no operation ever
/// touches a file outside it.
pub proof fn lemma_target_stays_under_root(
    fs: SandboxFs,
    path: Seq<char>,
    r: Result<String, SandboxError>,
)
    requires
        resolve_matches(fs.spec_root(), path, r),
    ensures
        r matches Ok(p) ==> p@.len() >= fs.spec_root().len() && p@.subrange(
            0,
            fs.spec_root().len() as int,
        ) == fs.spec_root(),
{
    if r is Ok {
        crate::path::lemma_joined_under_prefix(
            fs.spec_root(),
            crate::path::kept_segments(crate::path::raw_segments(path)),
        );
    }
}

/// Resolution is a function of the configuration and the path alone: two
/// outcomes for the same inputs agree.
pub proof fn lemma_resolve_deterministic(
    base: Seq<char>,
    relative: Seq<char>,
    r1: Result<String, SandboxError>,
    r2: Result<String, SandboxError>,
)
    requires
        resolve_matches(base, relative, r1),
        resolve_matches(base, relative, r2),
    ensures
        r1 is Ok <==> r2 is Ok,
        r1 is Ok && r2 is Ok ==> (r1->Ok_0)@ == (r2->Ok_0)@,
{
}

/// Reading back a path just written lands on the very bytes written: an
/// admitted write of `data` and a read of the same path agree on one
/// absolute target, and the written size passes the read quota.
pub proof fn lemma_read_after_write(
    fs: SandboxFs,
    path: Seq<char>,
    data: Seq<u8>,
    w: Result<String, SandboxError>,
    rd: Result<String, SandboxError>,
)
    requires
        data.len() <= fs.spec_max_file_size(),
        resolve_matches(fs.spec_root(), path, w),
        resolve_matches(fs.spec_root(), path, rd),
    ensures
        w is Ok <==> rd is Ok,
        w is Ok && rd is Ok ==> (w->Ok_0)@ == (rd->Ok_0)@,
        data.len() <= fs.spec_max_file_size(),
{
    lemma_resolve_deterministic(fs.spec_root(), path, w, rd);
}

/// Deleting is idempotent at the policy level: two deletions of one path
/// are admitted alike, and a target already gone still counts as success.
pub proof fn lemma_delete_idempotent(
    fs: SandboxFs,
    path: Seq<char>,
    d1: Result<String, SandboxError>,
    d2: Result<String, SandboxError>,
)
    requires
        resolve_matches(fs.spec_root(), path, d1),
        resolve_matches(fs.spec_root(), path, d2),
    ensures
        d1 is Ok <==> d2 is Ok,
        d1 is Ok && d2 is Ok ==> (d1->Ok_0)@ == (d2->Ok_0)@,
{
    lemma_resolve_deterministic(fs.spec_root(), path, d1, d2);
}

/// A listing is served sorted, and listing again over unchanged entries
/// returns the identical sequence.
pub proof fn lemma_listing_stable(entries: Seq<FileEntry>, r1: Seq<FileEntry>, r2: Seq<FileEntry>)
    requires
        r1 == sort_entries_spec(entries),
        r2 == sort_entries_spec(entries),
    ensures
        sorted_entries(r1),
        r1 == r2,
{
    lemma_sort_entries_sorted(entries);
}

} // verus!
