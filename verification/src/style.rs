//! Styled output: the lines of a listing with their pieces painted by the
//! colored crate. Whether that crate paints at all depends on the terminal
//! and the environment, so each piece comes out in one of two ways: as it
//! is, or between the escape sequences of its style. The contracts state
//! both, and the layout that the pieces stand in.

use crate::annotate::{entry_views, EntryView, StackEntry};
use crate::diagnostic::{message_text, DiagnosticView};
use crate::listing::{diagram_texts, is_listing, listing_layout, Listing, ListingView};
use crate::render::{
    author_piece,
    author_piece_text,
    branch_piece,
    branch_piece_text,
    chain_layout,
    layout_chain,
    layout_line,
    line_layout,
    texts,
    time_piece,
    time_piece_text,
};
use crate::text::short_text;
use crate::repo::listing_at;
use crate::upstream::{resolution_views, PairView, ResolutionView, UpstreamPair};
use colored::Colorize;
use vstd::prelude::*;

verus! {

/// The escape sequence that ends all styling.
pub open spec fn reset_text() -> Seq<char> {
    seq!['\u{1b}', '[', '0', 'm']
}

/// The escape sequence that sets bold.
pub open spec fn bold_style() -> Seq<char> {
    seq!['\u{1b}', '[', '1', 'm']
}

/// The escape sequence that sets bold and the colour with the digit
/// `colour`: `1` red, `2` green, `3` yellow, `4` blue.
pub open spec fn colour_style(colour: char) -> Seq<char> {
    seq!['\u{1b}', '[', '1', ';', '3', colour, 'm']
}

/// `text` with `style` set again behind each reset sequence that it holds,
/// so that a piece painted before keeps the style around it.
pub open spec fn restyled(text: Seq<char>, style: Seq<char>) -> Seq<char>
    decreases text.len(),
{
    if text.len() == 0 {
        text
    } else if text.len() >= 4 && text.take(4) == reset_text() {
        reset_text() + style + restyled(text.skip(4), style)
    } else {
        seq![text[0]] + restyled(text.skip(1), style)
    }
}

/// `text` painted in `style`: the style, the text with the style kept up
/// inside it, and the reset sequence.
pub open spec fn painted(text: Seq<char>, style: Seq<char>) -> Seq<char> {
    style + restyled(text, style) + reset_text()
}

/// What a paint of `text` in `style` can give: the text itself, where the
/// environment asks for no colours, or the text painted.
pub open spec fn is_painted(text: Seq<char>, style: Seq<char>, shown: Seq<char>) -> bool {
    shown == text || shown == painted(text, style)
}

/// `Colorize::red`, `Colorize::bold` and the `Display` text of the result:
/// `text` itself where colours are off, else `text` between the sequence for
/// bold red and the reset sequence, with bold red set again behind each
/// reset sequence inside it. This holds as long as the colour setting is
/// not changed while the text is made.
#[verifier::external_body]
fn red_bold(text: &str) -> (r: String)
    ensures
        is_painted(text@, colour_style('1'), r@),
{
    text.red().bold().to_string()
}

/// `Colorize::green`, `Colorize::bold` and the `Display` text of the
/// result: as for red, with the sequence for bold green.
#[verifier::external_body]
fn green_bold(text: &str) -> (r: String)
    ensures
        is_painted(text@, colour_style('2'), r@),
{
    text.green().bold().to_string()
}

/// `Colorize::yellow`, `Colorize::bold` and the `Display` text of the
/// result: as for red, with the sequence for bold yellow.
#[verifier::external_body]
fn yellow_bold(text: &str) -> (r: String)
    ensures
        is_painted(text@, colour_style('3'), r@),
{
    text.yellow().bold().to_string()
}

/// `Colorize::blue`, `Colorize::bold` and the `Display` text of the result:
/// as for red, with the sequence for bold blue.
#[verifier::external_body]
fn blue_bold(text: &str) -> (r: String)
    ensures
        is_painted(text@, colour_style('4'), r@),
{
    text.blue().bold().to_string()
}

/// `Colorize::bold` and the `Display` text of the result: as for red, with
/// the sequence for bold alone.
#[verifier::external_body]
fn bold(text: &str) -> (r: String)
    ensures
        is_painted(text@, bold_style(), r@),
{
    text.bold().to_string()
}

/// Whether `line` is the stack line of `entry` in its styling: the layout of
/// a stack line over the pieces of the entry, each either as it is or
/// painted: the short identity in bold red, the branch in bold yellow, the
/// summary in bold, the time in bold green, and the author, its name in
/// bold, in bold blue.
pub open spec fn is_styled_line(entry: EntryView, line: Seq<char>) -> bool {
    exists|
        short: Seq<char>,
        branch: Option<Seq<char>>,
        summary: Seq<char>,
        time: Seq<char>,
        name: Seq<char>,
        author: Seq<char>,
    |
        #![trigger line_layout(short, branch, summary, time, author), author_piece_text(name)]
        {
            &&& is_painted(short_text(entry.commit.id), colour_style('1'), short)
            &&& match entry.branch {
                Some(b) => branch is Some && is_painted(
                    branch_piece_text(b),
                    colour_style('3'),
                    branch->Some_0,
                ),
                None => branch is None,
            }
            &&& is_painted(entry.commit.summary, bold_style(), summary)
            &&& is_painted(time_piece_text(entry.commit.time), colour_style('2'), time)
            &&& is_painted(entry.commit.author, bold_style(), name)
            &&& is_painted(author_piece_text(name), colour_style('4'), author)
            &&& line == line_layout(short, branch, summary, time, author)
        }
}

/// Whether `lines` is the diagram of `pair` in its styling: the layout of a
/// diagram over the branch, as it is or painted in bold blue, and the
/// upstream, as it is or painted in bold green.
pub open spec fn is_styled_chain(pair: PairView, lines: Seq<Seq<char>>) -> bool {
    exists|branch: Seq<char>, upstream: Seq<char>|
        {
            &&& is_painted(pair.branch, colour_style('4'), branch)
            &&& is_painted(pair.upstream, colour_style('2'), upstream)
            &&& lines == #[trigger] chain_layout(branch, upstream)
        }
}

/// Whether `lines` is the diagram of the branch in its styling: that of its
/// pair, or no line where it has none.
pub open spec fn is_styled_diagram(r: ResolutionView, lines: Seq<Seq<char>>) -> bool {
    match r.pair {
        Some(pair) => is_styled_chain(pair, lines),
        None => lines == Seq::<Seq<char>>::empty(),
    }
}

/// Whether `lines` are the lines of the listing in its styling: its layout
/// over the styled line of each entry and the styled diagram of each
/// branch. The reports are not styled.
pub open spec fn is_styled_listing(l: ListingView, lines: Seq<Seq<char>>) -> bool {
    exists|stack: Seq<Seq<char>>, diagrams: Seq<Seq<Seq<char>>>|
        {
            &&& stack.len() == l.entries.len()
            &&& forall|i: int| 0 <= i < stack.len() ==> is_styled_line(l.entries[i], #[trigger] stack[i])
            &&& diagrams.len() == l.chains.len()
            &&& forall|k: int|
                0 <= k < diagrams.len() ==> is_styled_diagram(l.chains[k], #[trigger] diagrams[k])
            &&& lines == #[trigger] listing_layout(l, stack, diagrams)
        }
}

/// What a styled report on a place is: the one line that says it holds no
/// repository, the one line of a read failure, or the styled lines of a
/// listing.
pub open spec fn is_styled_report(lines: Seq<Seq<char>>) -> bool {
    ||| lines == seq![message_text(DiagnosticView::NotARepository)]
    ||| exists|text: Seq<char>| lines == seq![#[trigger] message_text(DiagnosticView::ReadFailure(text))]
    ||| exists|l: ListingView| is_listing(l) && #[trigger] is_styled_listing(l, lines)
}

/// The line of one stack entry with its pieces painted: the short identity
/// in red, the branch in yellow, the time in green, the author in blue,
/// all of them and the summary in bold.
pub fn styled_line(entry: &StackEntry) -> (s: String)
    ensures
        is_styled_line(entry@, s@),
{
    let short = red_bold(entry.commit.id.short().as_str());
    let summary = bold(entry.commit.summary.as_str());
    let time = green_bold(time_piece(entry.commit.time).as_str());
    let name = bold(entry.commit.author.as_str());
    let author = blue_bold(author_piece(name.as_str()).as_str());
    match &entry.branch {
        Some(b) => {
            let branch = yellow_bold(branch_piece(b.as_str()).as_str());
            layout_line(
                short.as_str(),
                Some(branch.as_str()),
                summary.as_str(),
                time.as_str(),
                author.as_str(),
            )
        },
        None => {
            layout_line(short.as_str(), None, summary.as_str(), time.as_str(), author.as_str())
        },
    }
}

/// The diagram of a pair with its pieces painted: the branch in blue, the
/// upstream in green, both in bold.
pub fn styled_chain(pair: &UpstreamPair) -> (lines: Vec<String>)
    ensures
        is_styled_chain(pair@, texts(lines@)),
{
    let branch = blue_bold(pair.branch.as_str());
    let upstream = green_bold(pair.upstream.as_str());
    layout_chain(branch.as_str(), upstream.as_str())
}

/// All lines of the listing, styled, in the order they are shown.
pub fn styled_lines(listing: &Listing) -> (r: Vec<String>)
    ensures
        is_styled_listing(listing@, texts(r@)),
{
    let mut stack: Vec<String> = Vec::new();
    let mut i: usize = 0;
    while i < listing.entries.len()
        invariant
            i <= listing.entries.len(),
            stack.len() == i,
            forall|j: int| 0 <= j < i ==> is_styled_line(listing.entries@[j]@, #[trigger] stack@[j]@),
        decreases listing.entries.len() - i,
    {
        stack.push(styled_line(&listing.entries[i]));
        i = i + 1;
    }
    let mut diagrams: Vec<Vec<String>> = Vec::new();
    let mut k: usize = 0;
    while k < listing.chains.len()
        invariant
            k <= listing.chains.len(),
            diagrams.len() == k,
            forall|j: int|
                0 <= j < k ==> is_styled_diagram(
                    listing.chains@[j]@,
                    texts((#[trigger] diagrams@[j])@),
                ),
        decreases listing.chains.len() - k,
    {
        let diagram = match &listing.chains[k].pair {
            Some(p) => styled_chain(p),
            None => Vec::new(),
        };
        assert(is_styled_diagram(listing.chains@[k as int]@, texts(diagram@))) by {
            if listing.chains@[k as int].pair is None {
                assert(texts(diagram@) =~= Seq::<Seq<char>>::empty());
            }
        }
        diagrams.push(diagram);
        k = k + 1;
    }
    let r = listing.layout(&stack, &diagrams);
    proof {
        let l = listing@;
        let lines = texts(stack@);
        let pictures = diagram_texts(diagrams@);
        assert forall|i: int| 0 <= i < lines.len() implies is_styled_line(
            l.entries[i],
            #[trigger] lines[i],
        ) by {
            assert(is_styled_line(listing.entries@[i]@, stack@[i]@));
            assert(entry_views(listing.entries@)[i] == listing.entries@[i]@);
        }
        assert forall|k: int| 0 <= k < pictures.len() implies is_styled_diagram(
            l.chains[k],
            #[trigger] pictures[k],
        ) by {
            assert(is_styled_diagram(listing.chains@[k]@, texts(diagrams@[k]@)));
            assert(resolution_views(listing.chains@)[k] == listing.chains@[k]@);
        }
        assert(texts(r@) == listing_layout(l, lines, pictures));
    }
    r
}

/// The styled lines to show for the place `path`: those of the listing of
/// the repository there, or the one line that says why there is none.
pub fn styled_at(path: &str) -> (lines: Vec<String>)
    ensures
        is_styled_report(texts(lines@)),
{
    match listing_at(path) {
        Ok(listing) => styled_lines(&listing),
        Err(note) => {
            let mut lines: Vec<String> = Vec::new();
            lines.push(note.message());
            assert(texts(lines@) =~= seq![message_text(note@)]);
            lines
        },
    }
}

} // verus!
