use gx::annotate::StackEntry;
use gx::listing::Listing;
use gx::model::{BranchRef, CommitDescriptor, CommitId, NameLookup, UpstreamLookup};
use gx::style::{styled_at, styled_chain, styled_line, styled_lines};
use gx::upstream::UpstreamPair;
use gx::walk::walk_history;

fn id(n: u8) -> CommitId {
    CommitId { bytes: [n; 20] }
}

fn entry(branch: Option<&str>) -> StackEntry {
    StackEntry {
        commit: CommitDescriptor::new(
            id(0xab),
            Some(String::from("Add feature")),
            Some(String::from("Ada")),
            1_700_000_000,
            vec![],
        ),
        branch: branch.map(String::from),
    }
}

/// `text` without the escape sequences that set and reset colours.
fn unpainted(text: &str) -> String {
    let mut out = String::new();
    let mut chars = text.chars();
    while let Some(c) = chars.next() {
        if c == '\u{1b}' {
            for d in chars.by_ref() {
                if d == 'm' {
                    break;
                }
            }
        } else {
            out.push(c);
        }
    }
    out
}

#[test]
fn styled_line_reads_as_the_plain_line() {
    colored::control::set_override(true);
    let line = styled_line(&entry(Some("main")));
    assert_eq!(unpainted(&line), "* abababa - (main) Add feature (1700000000) <Ada>");
    assert!(line.contains('\u{1b}'));
    assert!(line.starts_with("* "));
    let line = styled_line(&entry(None));
    assert_eq!(unpainted(&line), "* abababa - Add feature (1700000000) <Ada>");
}

#[test]
fn styled_line_without_colours_is_the_plain_line() {
    colored::control::set_override(false);
    assert_eq!(
        styled_line(&entry(Some("main"))),
        "* abababa - (main) Add feature (1700000000) <Ada>"
    );
    assert_eq!(styled_line(&entry(None)), "* abababa - Add feature (1700000000) <Ada>");
}

#[test]
fn styled_line_paints_each_piece_in_its_colour() {
    colored::control::set_override(true);
    let line = styled_line(&entry(Some("main")));
    assert_eq!(
        line,
        "* \u{1b}[1;31mabababa\u{1b}[0m - \u{1b}[1;33m(main)\u{1b}[0m \u{1b}[1mAdd feature\u{1b}[0m \u{1b}[1;32m(1700000000)\u{1b}[0m \u{1b}[1;34m<\u{1b}[1mAda\u{1b}[0m\u{1b}[1;34m>\u{1b}[0m"
    );
}

#[test]
fn styled_chain_has_three_stages() {
    colored::control::set_override(true);
    let pair = UpstreamPair { branch: String::from("main"), upstream: String::from("origin/main") };
    let lines = styled_chain(&pair);
    assert_eq!(lines.len(), 9);
    let plain: Vec<String> = lines.iter().map(|l| unpainted(l)).collect();
    assert_eq!(
        plain,
        vec![
            "\u{25c9}  branch: main, upstream: origin/main",
            "\u{ff5c}",
            "\u{ff5c}",
            "\u{ff5c}",
            "\u{25cb}  branch: main, upstream: origin/main",
            "\u{ff5c}",
            "\u{ff5c}",
            "\u{ff5c}",
            "\u{29bf}  branch: main, upstream: origin/main",
        ]
    );
    assert_eq!(
        lines[0],
        "\u{25c9}  branch: \u{1b}[1;34mmain\u{1b}[0m, upstream: \u{1b}[1;32morigin/main\u{1b}[0m"
    );
    assert_eq!(lines[0][3..], lines[4][3..]);
    assert_eq!(lines[4][3..], lines[8][3..]);
}

#[test]
fn styled_lines_read_as_the_plain_lines() {
    colored::control::set_override(true);
    let history = vec![
        CommitDescriptor::new(id(1), Some(String::from("two")), None, 2, vec![id(2)]),
        CommitDescriptor::new(id(2), None, Some(String::from("Bo")), 1, vec![id(3), id(4)]),
    ];
    let branches = vec![
        BranchRef {
            name: NameLookup::Named(String::from("top")),
            target: Some(id(1)),
            upstream: UpstreamLookup::Tracking(String::from("origin/top")),
        },
        BranchRef {
            name: NameLookup::Named(String::from("lost")),
            target: None,
            upstream: UpstreamLookup::Unnamed,
        },
    ];
    let listing = Listing::assemble(&branches, &walk_history(history));
    let styled = styled_lines(&listing);
    let plain = listing.lines();
    assert_eq!(plain.len(), 15);
    assert_eq!(styled.iter().map(|l| unpainted(l)).collect::<Vec<_>>(), plain);
    assert_eq!(styled[0], plain[0]);
    assert_ne!(styled[1], plain[1]);
    assert_eq!(styled[3], plain[3]);
}

#[test]
fn styled_report_of_a_place_without_repository() {
    colored::control::set_override(true);
    assert_eq!(styled_at("/"), vec!["Error: Not a git repository."]);
}

#[test]
fn paint_keeps_its_style_around_a_painted_piece() {
    colored::control::set_override(true);
    let line = styled_line(&entry(None));
    let author = line.split(' ').last().unwrap();
    assert_eq!(
        author,
        "\u{1b}[1;34m<\u{1b}[1mAda\u{1b}[0m\u{1b}[1;34m>\u{1b}[0m"
    );
    let pair = UpstreamPair {
        branch: String::from("a\u{1b}[0mb"),
        upstream: String::from("up"),
    };
    let lines = styled_chain(&pair);
    assert_eq!(
        lines[0],
        "\u{25c9}  branch: \u{1b}[1;34ma\u{1b}[0m\u{1b}[1;34mb\u{1b}[0m, upstream: \u{1b}[1;32mup\u{1b}[0m"
    );
}

#[test]
fn styled_chain_without_colours_is_the_plain_diagram() {
    colored::control::set_override(false);
    let pair = UpstreamPair { branch: String::from("main"), upstream: String::from("origin/main") };
    assert_eq!(styled_chain(&pair), gx::render::chain_lines(&pair));
}
