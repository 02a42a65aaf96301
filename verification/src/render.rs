//! Lines of text: one line for each entry of a stack, and the three-stage
//! diagram of a branch and its upstream.

use crate::annotate::{EntryView, StackEntry};
use crate::text::{decimal, decimal_text, hex_text, short_text};
use crate::upstream::{PairView, UpstreamPair};
use vstd::prelude::*;

verus! {

/// The texts in `lines`, each as its characters.
pub open spec fn texts(lines: Seq<String>) -> Seq<Seq<char>> {
    lines.map_values(|s: String| s@)
}

/// A branch name as it stands in a stack line: in round brackets.
pub open spec fn branch_piece_text(name: Seq<char>) -> Seq<char> {
    "("@ + name + ")"@
}

/// A timestamp as it stands in a stack line: in decimal, in round brackets.
pub open spec fn time_piece_text(time: int) -> Seq<char> {
    "("@ + decimal_text(time) + ")"@
}

/// An author as it stands in a stack line: in angle brackets.
pub open spec fn author_piece_text(author: Seq<char>) -> Seq<char> {
    "<"@ + author + ">"@
}

/// A stack line laid out from its pieces: the marker, the short identity, a
/// dash, the branch piece where there is one, the summary, the time piece
/// and the author piece, with one space between them.
pub open spec fn line_layout(
    short: Seq<char>,
    branch: Option<Seq<char>>,
    summary: Seq<char>,
    time: Seq<char>,
    author: Seq<char>,
) -> Seq<char> {
    "* "@ + short + " - "@ + (match branch {
        Some(b) => b + " "@,
        None => Seq::empty(),
    }) + summary + " "@ + time + " "@ + author
}

/// The line of one stack entry.
pub open spec fn stack_line_text(entry: EntryView) -> Seq<char> {
    line_layout(
        short_text(entry.commit.id),
        match entry.branch {
            Some(b) => Some(branch_piece_text(b)),
            None => None,
        },
        entry.commit.summary,
        time_piece_text(entry.commit.time),
        author_piece_text(entry.commit.author),
    )
}

/// The glyph that leads the first, second and third stage of a diagram.
pub open spec fn stage_marker(stage: int) -> char {
    if stage == 0 {
        '\u{25c9}'
    } else if stage == 1 {
        '\u{25cb}'
    } else {
        '\u{29bf}'
    }
}

/// The line that joins two stages of a diagram.
pub open spec fn connector_text() -> Seq<char> {
    seq!['\u{ff5c}']
}

/// What every stage of a diagram says after its marker.
pub open spec fn stage_body(branch: Seq<char>, upstream: Seq<char>) -> Seq<char> {
    "  branch: "@ + branch + ", upstream: "@ + upstream
}

/// One stage of a diagram, laid out from its pieces.
pub open spec fn stage_layout(marker: Seq<char>, branch: Seq<char>, upstream: Seq<char>) -> Seq<
    char,
> {
    marker + stage_body(branch, upstream)
}

/// Number of lines in the diagram of a pair.
pub const CHAIN_LINES: usize = 9;

/// A diagram laid out from its pieces: three stages that each restate the
/// branch and its upstream behind a marker of their own, with three
/// connector lines between two stages.
pub open spec fn chain_layout(branch: Seq<char>, upstream: Seq<char>) -> Seq<Seq<char>> {
    seq![
        stage_layout(seq![stage_marker(0)], branch, upstream),
        connector_text(),
        connector_text(),
        connector_text(),
        stage_layout(seq![stage_marker(1)], branch, upstream),
        connector_text(),
        connector_text(),
        connector_text(),
        stage_layout(seq![stage_marker(2)], branch, upstream),
    ]
}

/// The diagram of a pair.
pub open spec fn chain_text(pair: PairView) -> Seq<Seq<char>> {
    chain_layout(pair.branch, pair.upstream)
}

/// `name` in round brackets.
pub fn branch_piece(name: &str) -> (s: String)
    ensures
        s@ == branch_piece_text(name@),
{
    let mut s = String::from_str("(");
    s.append(name);
    s.append(")");
    s
}

/// `time` in decimal, in round brackets.
pub fn time_piece(time: i64) -> (s: String)
    ensures
        s@ == time_piece_text(time as int),
{
    let mut s = String::from_str("(");
    let digits = decimal(time);
    s.append(digits.as_str());
    s.append(")");
    s
}

/// `author` in angle brackets.
pub fn author_piece(author: &str) -> (s: String)
    ensures
        s@ == author_piece_text(author@),
{
    let mut s = String::from_str("<");
    s.append(author);
    s.append(">");
    s
}

/// Lays out a stack line from its pieces, which may carry styling.
pub fn layout_line(short: &str, branch: Option<&str>, summary: &str, time: &str, author: &str) -> (s:
    String)
    ensures
        s@ == line_layout(
            short@,
            match branch {
                Some(b) => Some(b@),
                None => None,
            },
            summary@,
            time@,
            author@,
        ),
{
    let mut s = String::from_str("* ");
    s.append(short);
    s.append(" - ");
    match branch {
        Some(b) => {
            s.append(b);
            s.append(" ");
            assert(s@ =~= "* "@ + short@ + " - "@ + (b@ + " "@));
        },
        None => {
            assert(s@ =~= "* "@ + short@ + " - "@ + Seq::<char>::empty());
        },
    }
    s.append(summary);
    s.append(" ");
    s.append(time);
    s.append(" ");
    s.append(author);
    s
}

/// The line of one stack entry, without styling.
pub fn stack_line(entry: &StackEntry) -> (s: String)
    ensures
        s@ == stack_line_text(entry@),
{
    let short = entry.commit.id.short();
    let time = time_piece(entry.commit.time);
    let author = author_piece(entry.commit.author.as_str());
    match &entry.branch {
        Some(name) => {
            let branch = branch_piece(name.as_str());
            layout_line(
                short.as_str(),
                Some(branch.as_str()),
                entry.commit.summary.as_str(),
                time.as_str(),
                author.as_str(),
            )
        },
        None => layout_line(
            short.as_str(),
            None,
            entry.commit.summary.as_str(),
            time.as_str(),
            author.as_str(),
        ),
    }
}

/// The marker of a stage as a text of one glyph.
pub fn marker(stage: usize) -> (s: &'static str)
    ensures
        s@ == seq![stage_marker(stage as int)],
{
    proof {
        reveal_strlit("\u{25c9}");
        reveal_strlit("\u{25cb}");
        reveal_strlit("\u{29bf}");
    }
    let s = if stage == 0 {
        "\u{25c9}"
    } else if stage == 1 {
        "\u{25cb}"
    } else {
        "\u{29bf}"
    };
    assert(s@ =~= seq![stage_marker(stage as int)]);
    s
}

/// The line that joins two stages of a diagram.
pub fn connector() -> (s: &'static str)
    ensures
        s@ == connector_text(),
{
    proof {
        reveal_strlit("\u{ff5c}");
    }
    let s = "\u{ff5c}";
    assert(s@ =~= connector_text());
    s
}

/// Lays out one stage of a diagram from its pieces, which may carry styling.
pub fn layout_stage(marker: &str, branch: &str, upstream: &str) -> (s: String)
    ensures
        s@ == stage_layout(marker@, branch@, upstream@),
{
    let mut s = String::from_str(marker);
    s.append("  branch: ");
    s.append(branch);
    s.append(", upstream: ");
    s.append(upstream);
    assert(s@ =~= stage_layout(marker@, branch@, upstream@));
    s
}

/// Lays out a diagram from its pieces, which may carry styling: nine lines.
pub fn layout_chain(branch: &str, upstream: &str) -> (lines: Vec<String>)
    ensures
        texts(lines@) == chain_layout(branch@, upstream@),
{
    let mut lines: Vec<String> = Vec::new();
    lines.push(layout_stage(marker(0), branch, upstream));
    lines.push(String::from_str(connector()));
    lines.push(String::from_str(connector()));
    lines.push(String::from_str(connector()));
    lines.push(layout_stage(marker(1), branch, upstream));
    lines.push(String::from_str(connector()));
    lines.push(String::from_str(connector()));
    lines.push(String::from_str(connector()));
    lines.push(layout_stage(marker(2), branch, upstream));
    assert(texts(lines@) =~= chain_layout(branch@, upstream@));
    lines
}

/// The diagram of a pair, without styling.
pub fn chain_lines(pair: &UpstreamPair) -> (lines: Vec<String>)
    ensures
        texts(lines@) == chain_text(pair@),
{
    layout_chain(pair.branch.as_str(), pair.upstream.as_str())
}

/// A diagram has nine lines. Its first, fifth and ninth line are the three
/// stages: each is its own marker followed by the same text, which names
/// the branch and its upstream, and the three markers differ. Every other
/// line is a connector.
pub proof fn lemma_chain_has_three_stages(branch: Seq<char>, upstream: Seq<char>)
    ensures
        chain_layout(branch, upstream).len() == CHAIN_LINES,
        forall|stage: int|
            0 <= stage < 3 ==> {
                &&& (#[trigger] chain_layout(branch, upstream)[4 * stage])[0] == stage_marker(stage)
                &&& chain_layout(branch, upstream)[4 * stage].skip(1) == stage_body(branch, upstream)
            },
        forall|line: int|
            0 <= line < CHAIN_LINES && line % 4 != 0 ==> #[trigger] chain_layout(
                branch,
                upstream,
            )[line] == connector_text(),
        stage_marker(0) != stage_marker(1),
        stage_marker(0) != stage_marker(2),
        stage_marker(1) != stage_marker(2),
{
    assert forall|stage: int| 0 <= stage < 3 implies {
        &&& (#[trigger] chain_layout(branch, upstream)[4 * stage])[0] == stage_marker(stage)
        &&& chain_layout(branch, upstream)[4 * stage].skip(1) == stage_body(branch, upstream)
    } by {
        let body = stage_body(branch, upstream);
        let line = chain_layout(branch, upstream)[4 * stage];
        assert(line == seq![stage_marker(stage)] + body);
        assert(line.skip(1) =~= body);
    }
}

/// The diagram of a pair shows the pair, and nothing else, three times:
/// once behind each marker.
pub proof fn lemma_pair_is_shown_in_three_stages(pair: PairView)
    ensures
        chain_text(pair).len() == CHAIN_LINES,
        forall|stage: int|
            0 <= stage < 3 ==> #[trigger] chain_text(pair)[4 * stage] == seq![stage_marker(stage)]
                + stage_body(pair.branch, pair.upstream),
{
}

/// A stack line shows, right after its marker, the short form of the
/// commit's identity: the first seven digits of its hexadecimal text.
pub proof fn lemma_line_shows_short_identity(entry: EntryView)
    requires
        entry.commit.id.len() >= 4,
    ensures
        short_text(entry.commit.id).len() == 7,
        short_text(entry.commit.id) == hex_text(entry.commit.id).take(7),
        stack_line_text(entry).subrange(2, 9) == short_text(entry.commit.id),
{
    reveal_strlit("* ");
    let line = stack_line_text(entry);
    let short = short_text(entry.commit.id);
    assert(line.subrange(2, 9) =~= short);
}

} // verus!
