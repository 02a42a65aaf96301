use gx::annotate::{annotate, annotate_all, StackEntry};
use gx::diagnostic::Diagnostic;
use gx::error::StackError;
use gx::index::BranchIndex;
use gx::listing::{position_listing, Listing};
use gx::model::{BranchRef, CommitDescriptor, CommitId, NameLookup, UpstreamLookup};
use gx::render::{
    author_piece, branch_piece, chain_lines, connector, layout_line, layout_stage, marker,
    stack_line, time_piece,
};
use gx::repo::{gather, open_failure, upstream_failure, Gathering};
use gx::text::decimal;
use gx::upstream::{resolve, resolve_all, UpstreamPair};
use gx::walk::{next_state, step, walk_history, Step, Walk, WalkState, STACK_LIMIT};

fn id(n: u8) -> CommitId {
    CommitId { bytes: [n; 20] }
}

fn commit(n: u8, parents: Vec<CommitId>) -> CommitDescriptor {
    CommitDescriptor::new(
        id(n),
        Some(format!("change {}", n)),
        Some(String::from("Ada")),
        1_700_000_000 + i64::from(n),
        parents,
    )
}

/// `len` commits numbered from 1, each the child of the next, the last one
/// a root.
fn linear(len: u8) -> Vec<CommitDescriptor> {
    let mut history = Vec::new();
    for n in 1..=len {
        let parents = if n < len { vec![id(n + 1)] } else { vec![] };
        history.push(commit(n, parents));
    }
    history
}

fn branch(name: &str, target: Option<CommitId>) -> BranchRef {
    BranchRef {
        name: NameLookup::Named(String::from(name)),
        target,
        upstream: UpstreamLookup::NotConfigured,
    }
}

fn tracking(name: &str, upstream: &str) -> BranchRef {
    BranchRef {
        name: NameLookup::Named(String::from(name)),
        target: Some(id(1)),
        upstream: UpstreamLookup::Tracking(String::from(upstream)),
    }
}

fn ids(entries: &[CommitDescriptor]) -> Vec<CommitId> {
    entries.iter().map(|c| c.id).collect()
}

fn messages(notes: &[Diagnostic]) -> Vec<String> {
    notes.iter().map(|d| d.message()).collect()
}

#[test]
fn linear_history_is_listed_whole() {
    for len in 1..=10u8 {
        let walk = walk_history(linear(len));
        assert_eq!(walk.entries.len(), usize::from(len));
        assert_eq!(ids(&walk.entries), (1..=len).map(id).collect::<Vec<_>>());
        let expected = if len < 10 { WalkState::RootStop } else { WalkState::BoundedStop };
        assert_eq!(walk.stop, expected);
    }
}

#[test]
fn single_root_commit_is_a_stack_of_one() {
    let walk = walk_history(linear(1));
    assert_eq!(ids(&walk.entries), vec![id(1)]);
    assert_eq!(walk.stop, WalkState::RootStop);
}

#[test]
fn long_history_is_cut_at_ten() {
    let walk = walk_history(linear(25));
    assert_eq!(walk.entries.len(), 10);
    assert_eq!(STACK_LIMIT, 10);
    assert_eq!(ids(&walk.entries), (1..=10u8).map(id).collect::<Vec<_>>());
    assert_eq!(walk.stop, WalkState::BoundedStop);
}

#[test]
fn walk_does_not_depend_on_what_lies_past_the_tenth_commit() {
    let mut first = linear(11);
    let mut second = linear(10);
    second[9] = commit(10, vec![id(11)]);
    second.push(commit(99, vec![id(3), id(4)]));
    second.push(commit(98, vec![]));
    first[10] = commit(11, vec![id(50), id(51), id(52)]);
    let a = walk_history(first);
    let b = walk_history(second);
    assert_eq!(ids(&a.entries), ids(&b.entries));
    assert_eq!(a.stop, b.stop);
    assert_eq!(a.stop, WalkState::BoundedStop);
    assert_eq!(a.entries.len(), 10);
}

#[test]
fn merge_is_listed_and_ends_the_walk() {
    let mut history = linear(6);
    history[2] = commit(3, vec![id(4), id(40)]);
    let walk = walk_history(history);
    assert_eq!(ids(&walk.entries), vec![id(1), id(2), id(3)]);
    assert_eq!(walk.stop, WalkState::MergeStop);
    assert_eq!(walk.entries[2].parent_count(), 2);
}

#[test]
fn merge_at_the_current_position_gives_one_entry() {
    let mut history = linear(11);
    history[0] = commit(1, vec![id(2), id(7)]);
    let walk = walk_history(history);
    assert_eq!(ids(&walk.entries), vec![id(1)]);
    assert_eq!(walk.stop, WalkState::MergeStop);
}

#[test]
fn merge_as_tenth_commit_ends_at_the_bound() {
    let mut history = linear(12);
    history[9] = commit(10, vec![id(11), id(60)]);
    let walk = walk_history(history);
    assert_eq!(walk.entries.len(), 10);
    assert_eq!(walk.entries[9].id, id(10));
    assert_eq!(walk.stop, WalkState::BoundedStop);
    let listing = Listing::assemble(&Vec::new(), &walk);
    assert!(listing.stop_note().is_empty());
    assert_eq!(listing.lines().len(), 10);
}

#[test]
fn history_that_ends_early_is_a_read_error() {
    let mut history = linear(3);
    history[2] = commit(3, vec![id(4)]);
    let walk = walk_history(history);
    assert!(walk.entries.is_empty());
    assert_eq!(walk.stop, WalkState::ReadError);
}

#[test]
fn empty_history_is_a_read_error() {
    let walk = walk_history(Vec::new());
    assert!(walk.entries.is_empty());
    assert_eq!(walk.stop, WalkState::ReadError);
}

#[test]
fn next_state_tests_the_bound_first() {
    assert_eq!(next_state(1, 1), WalkState::Walking);
    assert_eq!(next_state(9, 1), WalkState::Walking);
    assert_eq!(next_state(1, 0), WalkState::RootStop);
    assert_eq!(next_state(1, 2), WalkState::MergeStop);
    assert_eq!(next_state(9, 3), WalkState::MergeStop);
    assert_eq!(next_state(10, 1), WalkState::BoundedStop);
    assert_eq!(next_state(10, 0), WalkState::BoundedStop);
    assert_eq!(next_state(10, 2), WalkState::BoundedStop);
    assert_eq!(next_state(11, 1), WalkState::BoundedStop);
}

#[test]
fn hex_text_of_an_identity() {
    let mut bytes = [0u8; 20];
    for (i, b) in bytes.iter_mut().enumerate() {
        *b = (i as u8) * 13 + 7;
    }
    let id = CommitId { bytes };
    assert_eq!(id.to_hex(), "0714212e3b4855626f7c8996a3b0bdcad7e4f1fe");
    assert_eq!(id.short(), "0714212");
    assert_eq!(id.short(), id.to_hex()[0..7]);
}

#[test]
fn hex_text_agrees_with_git2() {
    let samples: [[u8; 20]; 3] = [
        [0; 20],
        [0xff; 20],
        [
            0x01, 0x23, 0x45, 0x67, 0x89, 0xab, 0xcd, 0xef, 0x10, 0x32, 0x54, 0x76, 0x98, 0xba,
            0xdc, 0xfe, 0x0f, 0xf0, 0xa5, 0x5a,
        ],
    ];
    for bytes in samples {
        let oid = git2::Oid::from_bytes(&bytes).unwrap();
        let id = CommitId { bytes };
        assert_eq!(id.to_hex(), oid.to_string());
        assert_eq!(id.short(), oid.to_string()[0..7]);
    }
}

#[test]
fn identities_compare_by_their_bytes() {
    let mut bytes = [5u8; 20];
    assert!(id(5).same_as(&CommitId { bytes }));
    bytes[19] = 6;
    assert!(!id(5).same_as(&CommitId { bytes }));
    assert!(!id(5).same_as(&id(6)));
}

#[test]
fn decimal_text_of_integers() {
    assert_eq!(decimal(0), "0");
    assert_eq!(decimal(7), "7");
    assert_eq!(decimal(10), "10");
    assert_eq!(decimal(1_700_000_000), "1700000000");
    assert_eq!(decimal(-1), "-1");
    assert_eq!(decimal(-120), "-120");
    assert_eq!(decimal(i64::MAX), "9223372036854775807");
    assert_eq!(decimal(i64::MIN), "-9223372036854775808");
    for n in [-1001i64, -10, -9, 9, 99, 100, 4_294_967_296] {
        assert_eq!(decimal(n), n.to_string());
    }
}

#[test]
fn descriptor_fills_in_placeholders() {
    let d = CommitDescriptor::new(id(1), None, None, 5, vec![]);
    assert_eq!(d.summary, "<no summary>");
    assert_eq!(d.author, "Unknown");
    assert_eq!(d.time, 5);
    assert_eq!(d.parent_count(), 0);
    let d = CommitDescriptor::new(
        id(2),
        Some(String::from("Fix")),
        Some(String::from("Bo")),
        -3,
        vec![id(3), id(4)],
    );
    assert_eq!(d.summary, "Fix");
    assert_eq!(d.author, "Bo");
    assert_eq!(d.parent_count(), 2);
    let copy = d.duplicate();
    assert_eq!(copy.id, d.id);
    assert_eq!(copy.summary, d.summary);
    assert_eq!(copy.author, d.author);
    assert_eq!(copy.time, d.time);
    assert_eq!(copy.parents, d.parents);
}

#[test]
fn stack_line_with_and_without_branch() {
    let entry = StackEntry {
        commit: CommitDescriptor::new(
            id(0xab),
            Some(String::from("Add feature")),
            Some(String::from("Ada")),
            1_700_000_000,
            vec![],
        ),
        branch: Some(String::from("main")),
    };
    assert_eq!(stack_line(&entry), "* abababa - (main) Add feature (1700000000) <Ada>");
    let entry = StackEntry { branch: None, ..entry };
    assert_eq!(stack_line(&entry), "* abababa - Add feature (1700000000) <Ada>");
    let entry = StackEntry {
        commit: CommitDescriptor::new(id(0x0f), None, None, -42, vec![]),
        branch: None,
    };
    assert_eq!(stack_line(&entry), "* 0f0f0f0 - <no summary> (-42) <Unknown>");
}

#[test]
fn line_pieces_and_layout() {
    assert_eq!(branch_piece("topic"), "(topic)");
    assert_eq!(time_piece(12), "(12)");
    assert_eq!(author_piece("Ada"), "<Ada>");
    assert_eq!(layout_line("h", Some("b"), "s", "t", "a"), "* h - b s t a");
    assert_eq!(layout_line("h", None, "s", "t", "a"), "* h - s t a");
    assert_eq!(layout_stage("m", "b", "u"), "m  branch: b, upstream: u");
}

#[test]
fn diagram_has_three_stages_with_distinct_markers() {
    let pair = UpstreamPair { branch: String::from("main"), upstream: String::from("origin/main") };
    let lines = chain_lines(&pair);
    assert_eq!(
        lines,
        vec![
            "\u{25c9}  branch: main, upstream: origin/main",
            "\u{ff5c}",
            "\u{ff5c}",
            "\u{ff5c}",
            "\u{25cb}  branch: main, upstream: origin/main",
            "\u{ff5c}",
            "\u{ff5c}",
            "\u{ff5c}",
            "\u{29bf}  branch: main, upstream: origin/main",
        ]
    );
    assert_eq!(marker(0), "\u{25c9}");
    assert_eq!(marker(1), "\u{25cb}");
    assert_eq!(marker(2), "\u{29bf}");
    assert_ne!(marker(0), marker(1));
    assert_ne!(marker(1), marker(2));
    assert_ne!(marker(0), marker(2));
    assert_eq!(connector(), "\u{ff5c}");
}

#[test]
fn diagnostic_messages() {
    assert_eq!(Diagnostic::NotARepository.message(), "Error: Not a git repository.");
    assert_eq!(
        Diagnostic::DetachedHead.message(),
        "Error: HEAD is not currently pointing to a local branch. Switch to a local branch to list the stack."
    );
    assert_eq!(
        Diagnostic::NoTarget(Some(String::from("topic"))).message(),
        "Error: Branch topic has no target."
    );
    assert_eq!(
        Diagnostic::NoTarget(None).message(),
        "Error: Branch <unknown branch> has no target."
    );
    assert_eq!(
        Diagnostic::MergeCommit(id(0x12)).message(),
        "Error: Commit 1212121 has more than one parent. Stacked PRs are not supported."
    );
    assert_eq!(Diagnostic::UnnamedBranch.message(), "Found a branch with no name.");
    assert_eq!(Diagnostic::UnnamedUpstream.message(), "Found an upstream branch with no name.");
    assert_eq!(Diagnostic::ReadFailure(String::from("boom")).message(), "Error: boom");
    assert_eq!(Diagnostic::SkippedBranch.message(), "Skipping branch with no name.");
    assert_eq!(Diagnostic::ReadFailure(String::from("x")).duplicate().message(), "Error: x");
}

#[test]
fn errors_are_reported_as_read_failures() {
    let errors = [
        StackError::HeadUnreadable(String::from("a")),
        StackError::BranchesUnreadable(String::from("b")),
        StackError::CommitUnreadable(String::from("c")),
    ];
    let lines: Vec<String> = errors.iter().map(|e| e.diagnostic().message()).collect();
    assert_eq!(lines, vec!["Error: a", "Error: b", "Error: c"]);
}

#[test]
fn open_failure_tells_a_missing_repository_from_other_failures() {
    assert_eq!(
        open_failure(true, String::from("ignored")).message(),
        "Error: Not a git repository."
    );
    assert_eq!(open_failure(false, String::from("denied")).message(), "Error: denied");
}

#[test]
fn upstream_failure_tells_no_upstream_from_other_failures() {
    assert!(matches!(
        upstream_failure(true, String::from("none")),
        UpstreamLookup::NotConfigured
    ));
    match upstream_failure(false, String::from("broken")) {
        UpstreamLookup::Failed(text) => assert_eq!(text, "broken"),
        other => panic!("unexpected outcome {:?}", other),
    }
}

#[test]
fn index_keeps_the_branch_enumerated_last() {
    let branches = vec![
        branch("first", Some(id(1))),
        branch("other", Some(id(2))),
        branch("second", Some(id(1))),
    ];
    let (index, notes) = BranchIndex::build(&branches);
    assert!(notes.is_empty());
    assert_eq!(index.branch_name(&id(1)), Some(String::from("second")));
    assert_eq!(index.branch_name(&id(2)), Some(String::from("other")));
    assert_eq!(index.branch_name(&id(3)), None);
    assert!(index.get(&id(3)).is_none());

    let reversed = vec![
        branch("second", Some(id(1))),
        branch("other", Some(id(2))),
        branch("first", Some(id(1))),
    ];
    let (index, _) = BranchIndex::build(&reversed);
    assert_eq!(index.branch_name(&id(1)), Some(String::from("first")));

    for _ in 0..3 {
        let (again, _) = BranchIndex::build(&branches);
        assert_eq!(again.branch_name(&id(1)), Some(String::from("second")));
    }
}

#[test]
fn index_entry_of_a_nameless_branch_shows_no_name() {
    let branches = vec![
        branch("named", Some(id(1))),
        BranchRef {
            name: NameLookup::Unnamed,
            target: Some(id(1)),
            upstream: UpstreamLookup::NotConfigured,
        },
    ];
    let (index, notes) = BranchIndex::build(&branches);
    assert!(notes.is_empty());
    assert!(index.get(&id(1)).is_some());
    assert_eq!(index.branch_name(&id(1)), None);
}

#[test]
fn index_insert_replaces_an_entry() {
    let index = BranchIndex::new();
    assert!(index.get(&id(1)).is_none());
    let index = index.insert(id(1), branch("a", Some(id(1))));
    let index = index.insert(id(2), branch("b", Some(id(2))));
    assert_eq!(index.branch_name(&id(1)), Some(String::from("a")));
    let index = index.insert(id(1), branch("c", Some(id(1))));
    assert_eq!(index.branch_name(&id(1)), Some(String::from("c")));
    assert_eq!(index.branch_name(&id(2)), Some(String::from("b")));
}

#[test]
fn branches_without_target_are_reported_and_left_out() {
    let branches = vec![
        branch("lost", None),
        branch("kept", Some(id(4))),
        BranchRef {
            name: NameLookup::Unnamed,
            target: None,
            upstream: UpstreamLookup::NotConfigured,
        },
        BranchRef {
            name: NameLookup::Failed(String::from("bad name")),
            target: None,
            upstream: UpstreamLookup::NotConfigured,
        },
    ];
    let (index, notes) = BranchIndex::build(&branches);
    assert_eq!(
        messages(&notes),
        vec![
            "Error: Branch lost has no target.",
            "Error: Branch <unknown branch> has no target.",
            "Error: Branch <unknown branch> has no target.",
        ]
    );
    assert_eq!(index.branch_name(&id(4)), Some(String::from("kept")));
}

#[test]
fn annotate_joins_commit_and_index() {
    let (index, _) = BranchIndex::build(&vec![branch("topic", Some(id(2)))]);
    let entry = annotate(commit(2, vec![]), &index);
    assert_eq!(entry.branch, Some(String::from("topic")));
    assert_eq!(entry.commit.id, id(2));
    assert_eq!(entry.commit.summary, "change 2");
    let entry = annotate(commit(3, vec![]), &index);
    assert_eq!(entry.branch, None);
    let entries = annotate_all(&linear(3), &index);
    let names: Vec<Option<String>> = entries.iter().map(|e| e.branch.clone()).collect();
    assert_eq!(names, vec![None, Some(String::from("topic")), None]);
    assert_eq!(entries.iter().map(|e| e.commit.id).collect::<Vec<_>>(), vec![id(1), id(2), id(3)]);
}

#[test]
fn three_commits_with_three_branches() {
    let branches = vec![
        branch("base", Some(id(3))),
        branch("top", Some(id(1))),
        branch("middle", Some(id(2))),
    ];
    let walk = walk_history(linear(3));
    let listing = Listing::assemble(&branches, &walk);
    assert_eq!(listing.entries.len(), 3);
    assert_eq!(listing.stop, WalkState::RootStop);
    let names: Vec<Option<String>> = listing.entries.iter().map(|e| e.branch.clone()).collect();
    assert_eq!(
        names,
        vec![
            Some(String::from("top")),
            Some(String::from("middle")),
            Some(String::from("base")),
        ]
    );
    let lines = listing.lines();
    assert_eq!(
        &lines[0..3],
        &[
            String::from("* 0101010 - (top) change 1 (1700000001) <Ada>"),
            String::from("* 0202020 - (middle) change 2 (1700000002) <Ada>"),
            String::from("* 0303030 - (base) change 3 (1700000003) <Ada>"),
        ]
    );
    assert_eq!(
        &lines[3..],
        &[
            String::from("Skipping branch with no name."),
            String::from("Skipping branch with no name."),
            String::from("Skipping branch with no name."),
        ]
    );
}

#[test]
fn tracking_branch_gets_exactly_one_pair() {
    let resolution = resolve(&tracking("main", "origin/main"));
    assert!(resolution.notes.is_empty());
    let pair = resolution.pair.unwrap();
    assert_eq!(pair.branch, "main");
    assert_eq!(pair.upstream, "origin/main");

    let branches = vec![tracking("a", "origin/a"), branch("b", Some(id(2))), tracking("c", "up/c")];
    let resolutions = resolve_all(&branches);
    assert_eq!(resolutions.len(), 3);
    let pairs: Vec<(String, String)> = resolutions
        .iter()
        .filter_map(|r| r.pair.as_ref())
        .map(|p| (p.branch.clone(), p.upstream.clone()))
        .collect();
    assert_eq!(
        pairs,
        vec![
            (String::from("a"), String::from("origin/a")),
            (String::from("c"), String::from("up/c")),
        ]
    );
}

#[test]
fn branch_without_upstream_is_skipped_without_error() {
    let resolution = resolve(&branch("solo", Some(id(1))));
    assert!(resolution.pair.is_none());
    assert_eq!(messages(&resolution.notes), vec!["Skipping branch with no name."]);
    assert!(resolution.notes.iter().all(|d| !matches!(d, Diagnostic::ReadFailure(_))));
}

#[test]
fn every_missing_name_is_reported() {
    let unnamed = BranchRef {
        name: NameLookup::Unnamed,
        target: Some(id(1)),
        upstream: UpstreamLookup::Tracking(String::from("origin/x")),
    };
    let r = resolve(&unnamed);
    assert!(r.pair.is_none());
    assert_eq!(
        messages(&r.notes),
        vec!["Found a branch with no name.", "Skipping branch with no name."]
    );

    let failed = BranchRef {
        name: NameLookup::Failed(String::from("bad name")),
        target: Some(id(1)),
        upstream: UpstreamLookup::Failed(String::from("bad upstream")),
    };
    let r = resolve(&failed);
    assert!(r.pair.is_none());
    assert_eq!(
        messages(&r.notes),
        vec!["Error: bad name", "Error: bad upstream", "Skipping branch with no name."]
    );

    let nameless_upstream = BranchRef {
        name: NameLookup::Named(String::from("topic")),
        target: Some(id(1)),
        upstream: UpstreamLookup::Unnamed,
    };
    let r = resolve(&nameless_upstream);
    assert!(r.pair.is_none());
    assert_eq!(
        messages(&r.notes),
        vec!["Found an upstream branch with no name.", "Skipping branch with no name."]
    );
}

#[test]
fn detached_listing_is_one_line() {
    let listing = Listing::detached();
    assert!(listing.entries.is_empty());
    assert!(listing.chains.is_empty());
    assert_eq!(listing.stop, WalkState::DetachedStop);
    assert_eq!(
        listing.lines(),
        vec![
            "Error: HEAD is not currently pointing to a local branch. Switch to a local branch to list the stack."
        ]
    );
}

#[test]
fn listing_lines_come_in_order() {
    let mut history = linear(4);
    history[1] = commit(2, vec![id(3), id(9)]);
    let branches = vec![
        branch("lost", None),
        tracking("top", "origin/top"),
        BranchRef {
            name: NameLookup::Named(String::from("side")),
            target: Some(id(2)),
            upstream: UpstreamLookup::Failed(String::from("no remote")),
        },
    ];
    let walk = walk_history(history);
    let listing = Listing::assemble(&branches, &walk);
    assert_eq!(listing.stop, WalkState::MergeStop);
    assert_eq!(messages(&listing.stop_note()).len(), 1);
    assert_eq!(
        listing.lines(),
        vec![
            "Error: Branch lost has no target.",
            "* 0101010 - (top) change 1 (1700000001) <Ada>",
            "* 0202020 - (side) change 2 (1700000002) <Ada>",
            "Error: Commit 0202020 has more than one parent. Stacked PRs are not supported.",
            "Skipping branch with no name.",
            "\u{25c9}  branch: top, upstream: origin/top",
            "\u{ff5c}",
            "\u{ff5c}",
            "\u{ff5c}",
            "\u{25cb}  branch: top, upstream: origin/top",
            "\u{ff5c}",
            "\u{ff5c}",
            "\u{ff5c}",
            "\u{29bf}  branch: top, upstream: origin/top",
            "Error: no remote",
            "Skipping branch with no name.",
        ]
    );
}

#[test]
fn assemble_keeps_the_stop_of_the_walk() {
    let walk = Walk { entries: linear(2), stop: WalkState::RootStop };
    let listing = Listing::assemble(&Vec::new(), &walk);
    assert_eq!(listing.stop, WalkState::RootStop);
    assert_eq!(listing.entries.len(), 2);
    assert!(listing.notes.is_empty());
    assert!(listing.chains.is_empty());
}

#[test]
fn identity_from_bytes_wants_the_width_of_an_identity() {
    let mut raw = Vec::new();
    for n in 0..20u8 {
        raw.push(n * 3 + 1);
    }
    let id = CommitId::from_bytes(&raw).unwrap();
    assert_eq!(id.bytes.to_vec(), raw);
    assert_eq!(id.to_hex(), "0104070a0d101316191c1f2225282b2e3134373a");
    assert_eq!(CommitId::from_bytes(&raw[0..19]), None);
    raw.push(0);
    assert_eq!(CommitId::from_bytes(&raw), None);
    assert_eq!(CommitId::from_bytes(&[]), None);
}

#[test]
fn name_lookup_from_each_outcome_of_a_read() {
    match NameLookup::from_read(Ok(Some("topic"))) {
        NameLookup::Named(n) => assert_eq!(n, "topic"),
        other => panic!("unexpected outcome {:?}", other),
    }
    assert!(matches!(NameLookup::from_read(Ok(None)), NameLookup::Unnamed));
    match NameLookup::from_read(Err(String::from("bad"))) {
        NameLookup::Failed(text) => assert_eq!(text, "bad"),
        other => panic!("unexpected outcome {:?}", other),
    }
}

#[test]
fn upstream_lookup_from_each_outcome_of_a_read() {
    match UpstreamLookup::from_read(Ok(Some("origin/topic"))) {
        UpstreamLookup::Tracking(n) => assert_eq!(n, "origin/topic"),
        other => panic!("unexpected outcome {:?}", other),
    }
    assert!(matches!(UpstreamLookup::from_read(Ok(None)), UpstreamLookup::Unnamed));
    match UpstreamLookup::from_read(Err(String::from("bad"))) {
        UpstreamLookup::Failed(text) => assert_eq!(text, "bad"),
        other => panic!("unexpected outcome {:?}", other),
    }
}

#[test]
fn gather_takes_one_step_of_an_enumeration() {
    let found = vec![branch("a", Some(id(1)))];
    let all = match gather(found, Some(Ok(branch("b", None)))) {
        Gathering::Open(all) => all,
        other => panic!("unexpected outcome {:?}", other),
    };
    let names: Vec<Option<String>> = all.iter().map(|b| b.display_name()).collect();
    assert_eq!(names, vec![Some(String::from("a")), Some(String::from("b"))]);
    assert_eq!(all[1].target, None);

    let all = match gather(all, None) {
        Gathering::Complete(all) => all,
        other => panic!("unexpected outcome {:?}", other),
    };
    assert_eq!(all.len(), 2);

    match gather(all, Some(Err(String::from("broken step")))) {
        Gathering::Failed(StackError::BranchesUnreadable(text)) => assert_eq!(text, "broken step"),
        other => panic!("unexpected outcome {:?}", other),
    }

    match gather(Vec::new(), None) {
        Gathering::Complete(all) => assert!(all.is_empty()),
        other => panic!("unexpected outcome {:?}", other),
    }
}

#[test]
fn history_out_of_order_is_a_read_error() {
    let mut history = linear(4);
    history[2] = commit(30, vec![id(4)]);
    let walk = walk_history(history);
    assert!(walk.entries.is_empty());
    assert_eq!(walk.stop, WalkState::ReadError);

    let mut history = linear(12);
    history[10] = commit(77, vec![]);
    let walk = walk_history(history);
    assert_eq!(walk.entries.len(), 10);
    assert_eq!(walk.stop, WalkState::BoundedStop);
}

#[test]
fn step_emits_the_commit_that_was_asked_for() {
    let entries = match step(Vec::new(), commit(1, vec![id(2)])) {
        Step::Onward(entries) => entries,
        other => panic!("unexpected step {:?}", other),
    };
    assert_eq!(ids(&entries), vec![id(1)]);

    let entries = match step(entries, commit(2, vec![id(3)])) {
        Step::Onward(entries) => entries,
        other => panic!("unexpected step {:?}", other),
    };
    assert_eq!(ids(&entries), vec![id(1), id(2)]);

    match step(entries, commit(3, vec![])) {
        Step::Done(walk) => {
            assert_eq!(ids(&walk.entries), vec![id(1), id(2), id(3)]);
            assert_eq!(walk.stop, WalkState::RootStop);
        }
        other => panic!("unexpected step {:?}", other),
    }
}

#[test]
fn step_ends_the_walk_at_a_merge_and_at_the_bound() {
    match step(Vec::new(), commit(1, vec![id(2), id(3)])) {
        Step::Done(walk) => {
            assert_eq!(ids(&walk.entries), vec![id(1)]);
            assert_eq!(walk.stop, WalkState::MergeStop);
        }
        other => panic!("unexpected step {:?}", other),
    }
    let nine: Vec<CommitDescriptor> = linear(12).into_iter().take(9).collect();
    match step(nine, commit(10, vec![id(11)])) {
        Step::Done(walk) => {
            assert_eq!(walk.entries.len(), 10);
            assert_eq!(walk.stop, WalkState::BoundedStop);
        }
        other => panic!("unexpected step {:?}", other),
    }
}

#[test]
fn step_breaks_on_a_commit_that_was_not_asked_for() {
    let entries = vec![commit(1, vec![id(2)])];
    match step(entries, commit(3, vec![])) {
        Step::Broken(StackError::CommitUnreadable(text)) => {
            assert_eq!(text, "a parent is not the commit that its child names")
        }
        other => panic!("unexpected step {:?}", other),
    }
    let entries = vec![commit(1, vec![])];
    assert!(matches!(step(entries, commit(2, vec![])), Step::Broken(_)));
}

#[test]
fn position_that_is_no_branch_gives_the_detached_listing() {
    assert!(position_listing(true).is_none());
    let listing = position_listing(false).unwrap();
    assert!(listing.entries.is_empty());
    assert!(listing.chains.is_empty());
    assert_eq!(listing.stop, WalkState::DetachedStop);
    assert_eq!(
        listing.lines(),
        vec![
            "Error: HEAD is not currently pointing to a local branch. Switch to a local branch to list the stack."
        ]
    );
}
