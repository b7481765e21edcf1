//! Rows of research results, one per line with tabs between their columns.

use crate::numbers::{decimal, parse_number, parsed_number};
use crate::text::{
    chars_of, is_space, lines, lines_of, marks_part_pieces, pieces, split_text, trim_text, trimmed,
    views,
};
use vstd::prelude::*;
use vstd::string::*;

verus! {

/// A row of research results. Its score and its delta stand as they were written.
#[derive(Debug)]
pub struct ResearchRow {
    pub iteration: u32,
    pub topic: String,
    pub score: String,
    pub delta: String,
    pub decision: String,
    pub source: String,
}

/// What a row of research results holds.
pub struct RowView {
    pub iteration: nat,
    pub topic: Seq<char>,
    pub score: Seq<char>,
    pub delta: Seq<char>,
    pub decision: Seq<char>,
    pub source: Seq<char>,
}

impl View for ResearchRow {
    type V = RowView;

    open spec fn view(&self) -> RowView {
        RowView {
            iteration: self.iteration as nat,
            topic: self.topic@,
            score: self.score@,
            delta: self.delta@,
            decision: self.decision@,
            source: self.source@,
        }
    }
}

/// The row that a line is: none for a blank line, a comment, a line of fewer than six
/// columns, or one that does not begin with a number.
pub open spec fn row_of(line: Seq<char>) -> Option<RowView> {
    let inner = trimmed(line);
    let columns = pieces(inner, '\t');
    if inner.len() == 0 || inner[0] == '#' || columns.len() < 6 {
        None
    } else {
        match parsed_number(columns[0]) {
            Some(iteration) => if iteration > u32::MAX {
                None
            } else {
                Some(
                    RowView {
                        iteration,
                        topic: columns[1],
                        score: columns[2],
                        delta: columns[3],
                        decision: columns[4],
                        source: columns[5],
                    },
                )
            },
            None => None,
        }
    }
}

/// The rows among some lines.
pub open spec fn rows_of(all: Seq<Seq<char>>) -> Seq<RowView>
    decreases all.len(),
{
    if all.len() == 0 {
        seq![]
    } else {
        let earlier = rows_of(all.drop_last());
        match row_of(all.last()) {
            Some(row) => earlier.push(row),
            None => earlier,
        }
    }
}

fn read_row(line: &str) -> (row: Option<ResearchRow>)
    ensures
        match row {
            Some(read) => row_of(line@) == Some(read@),
            None => row_of(line@) is None,
        },
{
    let inner = trim_text(line);
    let chars = chars_of(inner.as_str());
    if chars.len() == 0 || chars[0] == '#' {
        return None;
    }
    let columns = split_text(inner.as_str(), '\t');
    let ghost texts = views(columns@);
    if columns.len() < 6 {
        return None;
    }
    assert(forall|k: int| 0 <= k < columns@.len() ==> texts[k] == #[trigger] columns@[k]@);
    match parse_number(columns[0].as_str(), u32::MAX as u64) {
        None => None,
        Some(iteration) => Some(
            ResearchRow {
                iteration: iteration as u32,
                topic: columns[1].clone(),
                score: columns[2].clone(),
                delta: columns[3].clone(),
                decision: columns[4].clone(),
                source: columns[5].clone(),
            },
        ),
    }
}

/// The rows of a file of research results, in their order.
pub fn read_research(text: &str) -> (rows: Vec<ResearchRow>)
    ensures
        rows@.map_values(|row: ResearchRow| row@) == rows_of(lines(text@)),
{
    let all = lines_of(text);
    let ghost texts = views(all@);
    let mut rows: Vec<ResearchRow> = Vec::new();
    let mut i: usize = 0;
    assert(texts.take(0) =~= seq![]);
    assert(rows@.map_values(|row: ResearchRow| row@) =~= seq![]);
    while i < all.len()
        invariant
            i <= all@.len(),
            texts == views(all@),
            rows@.map_values(|row: ResearchRow| row@) == rows_of(texts.take(i as int)),
        decreases all@.len() - i,
    {
        let ghost before = rows@;
        assert(texts.take(i as int + 1).drop_last() =~= texts.take(i as int));
        assert(texts.take(i as int + 1).last() == all@[i as int]@);
        if let Some(row) = read_row(all[i].as_str()) {
            let ghost added = row@;
            rows.push(row);
            assert(rows@.map_values(|row: ResearchRow| row@) =~= before.map_values(
                |row: ResearchRow| row@,
            ).push(added));
        }
        i += 1;
    }
    assert(texts.take(i as int) =~= texts);
    rows
}

/// A line of a number, a topic, a score, a delta, a decision and a source, with tabs between
/// them, is the row of these.
pub proof fn rows_have_six_columns(
    n: nat,
    topic: Seq<char>,
    score: Seq<char>,
    delta: Seq<char>,
    decision: Seq<char>,
    source: Seq<char>,
)
    requires
        n <= 0xffff_ffff,
        !topic.contains('\t'),
        !score.contains('\t'),
        !delta.contains('\t'),
        !decision.contains('\t'),
        !source.contains('\t'),
        source.len() > 0,
        !is_space(source.last()),
    ensures
        row_of(
            decimal(n).push('\t') + (topic.push('\t') + (score.push('\t') + (delta.push('\t') + (
            decision.push('\t') + source)))),
        ) == Some(RowView { iteration: n, topic, score, delta, decision, source }),
{
    let e = decision.push('\t') + source;
    let d = delta.push('\t') + e;
    let c = score.push('\t') + d;
    let b = topic.push('\t') + c;
    let line = decimal(n).push('\t') + b;
    crate::numbers::decimals_are_plain(n);
    crate::numbers::decimal_reads_back(n);
    let digits = decimal(n);
    assert(!digits.contains('\t')) by {
        if digits.contains('\t') {
            let k = choose|k: int| 0 <= k < digits.len() && digits[k] == '\t';
            assert('0' <= digits[k] <= '9');
        }
    }
    let none = Seq::<char>::empty();
    assert('0' <= digits[0] <= '9');
    assert(line[0] == digits[0]);
    assert(line.last() == source.last());
    crate::text::trimming_takes_only_spaces(none, line, none);
    assert(none + line + none =~= line);
    assert(trimmed(line) == line);
    marks_part_pieces(source, '\t', none);
    marks_part_pieces(decision, '\t', source);
    marks_part_pieces(delta, '\t', e);
    marks_part_pieces(score, '\t', d);
    marks_part_pieces(topic, '\t', c);
    marks_part_pieces(digits, '\t', b);
    let columns = pieces(line, '\t');
    assert(columns =~= seq![digits, topic, score, delta, decision, source]);
}

/// A blank line, a comment, and a line of fewer than six columns is no row; neither is one
/// that does not begin with a number of 32 bits. Columns beyond the sixth do not matter.
pub proof fn other_lines_are_no_rows(line: Seq<char>)
    ensures
        trimmed(line).len() == 0 ==> row_of(line) is None,
        trimmed(line).len() > 0 && trimmed(line)[0] == '#' ==> row_of(line) is None,
        pieces(trimmed(line), '\t').len() < 6 ==> row_of(line) is None,
        parsed_number(pieces(trimmed(line), '\t')[0]) is None ==> row_of(line) is None,
        parsed_number(pieces(trimmed(line), '\t')[0]) matches Some(n) ==> (n > 0xffff_ffff
            ==> row_of(line) is None),
        row_of(line) matches Some(row) ==> {
            let columns = pieces(trimmed(line), '\t');
            &&& parsed_number(columns[0]) == Some(row.iteration)
            &&& row.topic == columns[1]
            &&& row.score == columns[2]
            &&& row.delta == columns[3]
            &&& row.decision == columns[4]
            &&& row.source == columns[5]
        },
{
}

/// Rows come in the order of their lines, and a line that is none leaves no gap.
pub proof fn rows_keep_their_order(a: Seq<Seq<char>>, line: Seq<char>, b: Seq<Seq<char>>)
    ensures
        rows_of(Seq::empty()).len() == 0,
        row_of(line) matches Some(row) ==> rows_of(a.push(line) + b) == rows_of(a).push(row)
            + rows_of(b),
        row_of(line) is None ==> rows_of(a.push(line) + b) == rows_of(a) + rows_of(b),
    decreases b.len(),
{
    let all = a.push(line) + b;
    if b.len() == 0 {
        assert(all =~= a.push(line));
        assert(all.drop_last() =~= a);
        assert(rows_of(a) + rows_of(b) =~= rows_of(a));
        if let Some(row) = row_of(line) {
            assert(rows_of(a).push(row) + rows_of(b) =~= rows_of(a).push(row));
        }
    } else {
        assert(all.drop_last() =~= a.push(line) + b.drop_last());
        rows_keep_their_order(a, line, b.drop_last());
        let front = match row_of(line) {
            Some(row) => rows_of(a).push(row),
            None => rows_of(a),
        };
        if let Some(last) = row_of(b.last()) {
            assert((front + rows_of(b.drop_last())).push(last) =~= front + rows_of(
                b.drop_last(),
            ).push(last));
        }
    }
}

/// A row shows each column under its own name, and the rows of a file are those of its lines.
pub proof fn rows_show_their_columns(row: ResearchRow, text: &str, rows: Vec<ResearchRow>)
    requires
        call_ensures(read_research, (text,), rows),
    ensures
        row@.iteration == row.iteration,
        row@.topic == row.topic@,
        row@.score == row.score@,
        row@.delta == row.delta@,
        row@.decision == row.decision@,
        row@.source == row.source@,
        rows@.len() == rows_of(lines(text@)).len(),
{
    assert(rows@.map_values(|row: ResearchRow| row@).len() == rows@.len());
}

} // verus!
