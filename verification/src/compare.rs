//! The decisions of comparing an entry of the machine with its kept copy:
//! chunk by chunk for two files, entry by entry for two directories, and
//! what is reported.

use vstd::prelude::*;
use vstd::string::*;
use crate::entry_tree::{EntryStatus, EntryTree, height, tree_text};

verus! {

/// What one step of comparing two files decides.
#[derive(Debug, Clone, Copy, PartialEq, Eq, Structural)]
pub enum ChunkVerdict {
    /// The comparison is over; `true` where the contents are equal.
    Finished(bool),
    /// The first `n` bytes of both buffers are equal: consume them and go on.
    Advance(usize),
}

/// The step that two buffers lead to: each buffer holds the next bytes of
/// its file, and is empty only at the end of its file.
pub open spec fn chunk_verdict(a: Seq<u8>, b: Seq<u8>) -> ChunkVerdict {
    if a.len() == 0 && b.len() == 0 {
        ChunkVerdict::Finished(true)
    } else if a.len() == 0 || b.len() == 0 {
        ChunkVerdict::Finished(false)
    } else {
        let m = if a.len() <= b.len() { a.len() } else { b.len() };
        if a.take(m as int) == b.take(m as int) {
            ChunkVerdict::Advance(m as usize)
        } else {
            ChunkVerdict::Finished(false)
        }
    }
}

/// Files of different sizes differ: the comparison is over before any byte
/// is read where the sizes differ.
pub fn sizes_verdict(len1: u64, len2: u64) -> (r: Option<ChunkVerdict>)
    ensures
        r == (if len1 != len2 { Some(ChunkVerdict::Finished(false)) } else { None::<ChunkVerdict> }),
{
    if len1 != len2 {
        Some(ChunkVerdict::Finished(false))
    } else {
        None
    }
}

/// One step of comparing two files, given the bytes that each reader has
/// buffered.
pub fn compare_chunks(buf1: &[u8], buf2: &[u8]) -> (r: ChunkVerdict)
    ensures
        r == chunk_verdict(buf1@, buf2@),
{
    let len1 = buf1.len();
    let len2 = buf2.len();
    if len1 == 0 && len2 == 0 {
        return ChunkVerdict::Finished(true);
    }
    if len1 == 0 || len2 == 0 {
        return ChunkVerdict::Finished(false);
    }
    let m = if len1 <= len2 { len1 } else { len2 };
    let mut k: usize = 0;
    while k < m
        invariant
            m <= buf1@.len(),
            m <= buf2@.len(),
            k <= m,
            forall|j: int| 0 <= j < k ==> buf1@[j] == buf2@[j],
        decreases m - k,
    {
        if buf1[k] != buf2[k] {
            assert(buf1@.take(m as int)[k as int] != buf2@.take(m as int)[k as int]);
            return ChunkVerdict::Finished(false);
        }
        k = k + 1;
    }
    assert(buf1@.take(m as int) =~= buf2@.take(m as int));
    ChunkVerdict::Advance(m)
}

/// The status of a file entry, given whether its contents match.
pub fn file_status(equal: bool) -> (s: EntryStatus)
    ensures
        s == (if equal { EntryStatus::Equal } else { EntryStatus::Different }),
{
    if equal { EntryStatus::Equal } else { EntryStatus::Different }
}

/// The buffers of a step are the next bytes of each file from position
/// `pos`, non-empty until the end of the file.
pub open spec fn buffers_from(a: Seq<u8>, b: Seq<u8>, pos: int, buf1: Seq<u8>, buf2: Seq<u8>) -> bool {
    &&& 0 <= pos <= a.len()
    &&& 0 <= pos <= b.len()
    &&& pos + buf1.len() <= a.len()
    &&& pos + buf2.len() <= b.len()
    &&& buf1 == a.subrange(pos, pos + buf1.len())
    &&& buf2 == b.subrange(pos, pos + buf2.len())
    &&& (buf1.len() == 0 <==> pos == a.len())
    &&& (buf2.len() == 0 <==> pos == b.len())
}

/// Comparing two files chunk by chunk decides rightly, however the readers
/// cut the files into buffers: while the bytes consumed so far agree, a step
/// that finishes says "equal" exactly when the two contents are equal, and a
/// step that advances consumes at least one byte that agrees in both.
pub proof fn law_chunked_comparison(a: Seq<u8>, b: Seq<u8>, pos: int, buf1: Seq<u8>, buf2: Seq<u8>)
    requires
        buffers_from(a, b, pos, buf1, buf2),
        a.take(pos) == b.take(pos),
        buf1.len() <= usize::MAX,
        buf2.len() <= usize::MAX,
    ensures
        chunk_verdict(buf1, buf2) matches ChunkVerdict::Finished(equal) ==> (equal <==> a == b),
        chunk_verdict(buf1, buf2) matches ChunkVerdict::Advance(m) ==> {
            &&& m > 0
            &&& pos + m <= a.len()
            &&& pos + m <= b.len()
            &&& a.take(pos + m) == b.take(pos + m)
        },
{
    if buf1.len() == 0 && buf2.len() == 0 {
        assert(pos == a.len() && pos == b.len());
        assert(a =~= a.take(pos));
        assert(b =~= b.take(pos));
    } else if buf1.len() == 0 || buf2.len() == 0 {
        assert(a.len() != b.len());
    } else {
        let m = if buf1.len() <= buf2.len() { buf1.len() } else { buf2.len() };
        assert forall|j: int| 0 <= j < m implies buf1.take(m as int)[j] == a[pos + j] && buf2.take(m as int)[j] == b[pos + j] by {
            assert(buf1[j] == a.subrange(pos, pos + buf1.len())[j]);
            assert(buf2[j] == b.subrange(pos, pos + buf2.len())[j]);
        }
        if buf1.take(m as int) == buf2.take(m as int) {
            assert forall|j: int| 0 <= j < pos + m implies a[j] == b[j] by {
                if j < pos {
                    assert(a.take(pos)[j] == a[j]);
                    assert(b.take(pos)[j] == b[j]);
                } else {
                    assert(buf1.take(m as int)[j - pos] == buf2.take(m as int)[j - pos]);
                }
            }
            assert(a.take(pos + m) =~= b.take(pos + m));
        } else {
            if a == b {
                assert(buf1.take(m as int) =~= buf2.take(m as int));
            }
        }
    }
}

/// A step decides the same whichever file comes first.
pub proof fn law_chunk_verdict_symmetric(a: Seq<u8>, b: Seq<u8>)
    ensures
        chunk_verdict(a, b) == chunk_verdict(b, a),
{
}

/// Comparing a file with itself advances over each whole buffer and ends
/// with "equal".
pub proof fn law_chunk_verdict_reflexive(a: Seq<u8>)
    ensures
        chunk_verdict(a, a) == (if a.len() == 0 {
            ChunkVerdict::Finished(true)
        } else {
            ChunkVerdict::Advance(a.len() as usize)
        }),
{
}

/// Files of different sizes have different contents.
pub proof fn law_sizes(a: Seq<u8>, b: Seq<u8>)
    requires
        a.len() != b.len(),
    ensures
        a != b,
{
}

/// What is done with an entry of a source directory.
#[derive(Debug, Clone, Copy, PartialEq, Eq, Structural)]
pub enum EntryStep {
    /// Its counterpart does not exist.
    MarkMissing,
    /// It is a directory: compare it with its counterpart, recursively.
    Descend,
    /// It is a file: compare it with its counterpart.
    CompareFiles,
}

/// Chooses what to do with an entry, given whether its counterpart exists
/// and whether the entry is a directory.
pub fn entry_step(dest_exists: bool, is_dir: bool) -> (r: EntryStep)
    ensures
        r == (if !dest_exists {
            EntryStep::MarkMissing
        } else if is_dir {
            EntryStep::Descend
        } else {
            EntryStep::CompareFiles
        }),
{
    if !dest_exists {
        EntryStep::MarkMissing
    } else if is_dir {
        EntryStep::Descend
    } else {
        EntryStep::CompareFiles
    }
}

/// What became of an entry when two directories were checked for a match.
#[derive(Debug, Clone, Copy, PartialEq, Eq, Structural)]
pub enum EntryOutcome {
    /// Its counterpart does not exist.
    Absent,
    /// It is a directory, which was checked in turn.
    Subdirectory,
    /// It is a file; `true` where it matches its counterpart.
    File(bool),
}

/// Whether the directories still match after an entry: a missing
/// counterpart or a differing file ends the match. The verdict on a
/// subdirectory does not decide it.
pub fn entry_keeps_match(outcome: EntryOutcome) -> (r: bool)
    ensures
        r == match outcome {
            EntryOutcome::Absent => false,
            EntryOutcome::Subdirectory => true,
            EntryOutcome::File(equal) => equal,
        },
{
    match outcome {
        EntryOutcome::Absent => false,
        EntryOutcome::Subdirectory => true,
        EntryOutcome::File(equal) => equal,
    }
}

/// How the comparison of a source with its destination proceeds.
#[derive(Debug, Clone, Copy, PartialEq, Eq, Structural)]
pub enum ComparePlan {
    SourceMissing,
    DestinationMissing,
    MismatchedTypes,
    Files,
    Directories,
}

/// Chooses how to compare a source with its destination, from what the file
/// system says of both.
pub fn compare_plan(
    src_exists: bool,
    dest_exists: bool,
    src_is_file: bool,
    src_is_dir: bool,
    dest_is_file: bool,
    dest_is_dir: bool,
) -> (r: ComparePlan)
    ensures
        r == (if !src_exists {
            ComparePlan::SourceMissing
        } else if !dest_exists {
            ComparePlan::DestinationMissing
        } else if (src_is_file && dest_is_dir) || (src_is_dir && dest_is_file) {
            ComparePlan::MismatchedTypes
        } else if src_is_file {
            ComparePlan::Files
        } else {
            ComparePlan::Directories
        }),
{
    if !src_exists {
        ComparePlan::SourceMissing
    } else if !dest_exists {
        ComparePlan::DestinationMissing
    } else if (src_is_file && dest_is_dir) || (src_is_dir && dest_is_file) {
        ComparePlan::MismatchedTypes
    } else if src_is_file {
        ComparePlan::Files
    } else {
        ComparePlan::Directories
    }
}

/// The line that reports a path that does not exist.
pub fn report_missing(path: &str) -> (r: String)
    ensures
        r@ == "File ["@ + path@ + "] does not exist\n"@,
{
    let mut out = String::from_str("File [");
    out.append(path);
    out.append("] does not exist\n");
    out
}

/// What is printed where a file is compared with a directory.
pub fn report_mismatch() -> (r: &'static str)
    ensures
        r@ == "Mismatched types"@,
{
    "Mismatched types"
}

/// The verdict that is printed for two compared files.
pub open spec fn verdict_text(s: EntryStatus) -> Seq<char> {
    match s {
        EntryStatus::Equal => "Ok!"@,
        EntryStatus::Unknow => "Unknow!"@,
        EntryStatus::Different => "Entries do not match"@,
    }
}

/// The report on two compared files named `name`.
pub fn report_files(name: &str, status: EntryStatus) -> (r: String)
    ensures
        r@ == "=> "@ + name@ + " -- "@ + verdict_text(status) + "\n"@,
{
    let mut out = String::from_str("=> ");
    out.append(name);
    out.append(" -- ");
    match status {
        EntryStatus::Equal => out.append("Ok!"),
        EntryStatus::Unknow => out.append("Unknow!"),
        EntryStatus::Different => out.append("Entries do not match"),
    }
    out.append("\n");
    out
}

/// The report on two compared directories named `name`, whose comparison
/// gave `tree`.
pub fn report_directories(name: &str, tree: &EntryTree) -> (r: String)
    requires
        height(*tree) <= usize::MAX,
    ensures
        r@ == "==> "@ + name@ + "\n"@ + tree_text(*tree, 0),
{
    let mut out = String::from_str("==> ");
    out.append(name);
    out.append("\n");
    let body = tree.render(0);
    out.append(body.as_str());
    out
}

} // verus!
