use filekeeper::compare::{
    compare_chunks, compare_plan, entry_keeps_match, entry_step, file_status, report_directories,
    report_files, report_mismatch, report_missing, sizes_verdict, ChunkVerdict, ComparePlan,
    EntryOutcome, EntryStep,
};
use filekeeper::entry_tree::{EntryStatus, EntryTree};

#[test]
fn chunks_basic() {
    assert_eq!(compare_chunks(&[], &[]), ChunkVerdict::Finished(true));
    assert_eq!(compare_chunks(&[1], &[]), ChunkVerdict::Finished(false));
    assert_eq!(compare_chunks(&[], &[1]), ChunkVerdict::Finished(false));
    assert_eq!(compare_chunks(&[1, 2, 3], &[1, 2]), ChunkVerdict::Advance(2));
    assert_eq!(compare_chunks(&[1, 2], &[1, 2, 3, 4]), ChunkVerdict::Advance(2));
    assert_eq!(compare_chunks(&[1, 9, 3], &[1, 2, 3]), ChunkVerdict::Finished(false));
}

#[test]
fn sizes() {
    assert_eq!(sizes_verdict(3, 4), Some(ChunkVerdict::Finished(false)));
    assert_eq!(sizes_verdict(4, 4), None);
}

/// Runs the chunked comparison over two byte strings, with the readers
/// handing out at most `c1` and `c2` bytes at a time.
fn run(a: &[u8], b: &[u8], c1: usize, c2: usize) -> bool {
    let (mut p1, mut p2) = (0usize, 0usize);
    loop {
        let e1 = (p1 + c1).min(a.len());
        let e2 = (p2 + c2).min(b.len());
        match compare_chunks(&a[p1..e1], &b[p2..e2]) {
            ChunkVerdict::Finished(eq) => return eq,
            ChunkVerdict::Advance(n) => {
                assert!(n > 0);
                p1 += n;
                p2 += n;
            }
        }
    }
}

#[test]
fn chunked_comparison_decides_equality() {
    let a: Vec<u8> = (0..100u8).collect();
    let mut b = a.clone();
    for (c1, c2) in [(1, 1), (3, 7), (7, 3), (64, 5), (100, 100), (200, 1)] {
        assert!(run(&a, &b, c1, c2));
    }
    b[57] = 0;
    for (c1, c2) in [(1, 1), (3, 7), (7, 3), (64, 5), (100, 100), (200, 1)] {
        assert!(!run(&a, &b, c1, c2));
    }
    let shorter = &a[..99];
    for (c1, c2) in [(1, 1), (3, 7), (64, 5)] {
        assert!(!run(&a, shorter, c1, c2));
    }
    assert!(run(&[], &[], 4, 4));
}

#[test]
fn statuses() {
    assert_eq!(file_status(true), EntryStatus::Equal);
    assert_eq!(file_status(false), EntryStatus::Different);
}

#[test]
fn entry_steps() {
    assert_eq!(entry_step(false, true), EntryStep::MarkMissing);
    assert_eq!(entry_step(false, false), EntryStep::MarkMissing);
    assert_eq!(entry_step(true, true), EntryStep::Descend);
    assert_eq!(entry_step(true, false), EntryStep::CompareFiles);
}

#[test]
fn entry_outcomes() {
    assert!(!entry_keeps_match(EntryOutcome::Absent));
    assert!(entry_keeps_match(EntryOutcome::Subdirectory));
    assert!(entry_keeps_match(EntryOutcome::File(true)));
    assert!(!entry_keeps_match(EntryOutcome::File(false)));
}

#[test]
fn plans() {
    assert_eq!(compare_plan(false, true, true, false, true, false), ComparePlan::SourceMissing);
    assert_eq!(compare_plan(true, false, true, false, true, false), ComparePlan::DestinationMissing);
    assert_eq!(compare_plan(true, true, true, false, false, true), ComparePlan::MismatchedTypes);
    assert_eq!(compare_plan(true, true, false, true, true, false), ComparePlan::MismatchedTypes);
    assert_eq!(compare_plan(true, true, true, false, true, false), ComparePlan::Files);
    assert_eq!(compare_plan(true, true, false, true, false, true), ComparePlan::Directories);
    assert_eq!(compare_plan(true, true, false, false, false, false), ComparePlan::Directories);
}

#[test]
fn reports() {
    assert_eq!(report_missing("/x"), "File [/x] does not exist\n");
    assert_eq!(report_mismatch(), "Mismatched types");
    assert_eq!(report_files("a.txt", EntryStatus::Equal), "=> a.txt -- Ok!\n");
    assert_eq!(report_files("a.txt", EntryStatus::Unknow), "=> a.txt -- Unknow!\n");
    assert_eq!(report_files("a.txt", EntryStatus::Different), "=> a.txt -- Entries do not match\n");
    let mut t = EntryTree::new_dir();
    t.insert("/k/a".to_string(), EntryTree::Missing);
    assert_eq!(report_directories("k", &t), "==> k\n => \"/k/a\": Missing\n");
}

#[test]
fn chunk_steps_symmetric_and_reflexive() {
    let cases: [(&[u8], &[u8]); 5] = [(&[], &[]), (&[1], &[]), (&[1, 2, 3], &[1, 2]), (&[1, 9], &[1, 2]), (&[4], &[4, 5])];
    for (a, b) in cases {
        assert_eq!(compare_chunks(a, b), compare_chunks(b, a));
    }
    assert_eq!(compare_chunks(&[], &[]), ChunkVerdict::Finished(true));
    assert_eq!(compare_chunks(&[7, 8, 9], &[7, 8, 9]), ChunkVerdict::Advance(3));
    let a: Vec<u8> = (0..50u8).collect();
    assert!(run(&a, &a, 3, 8));
}
