//! The quotes source: a text of one record per line, `text|attribution`.

use vstd::prelude::*;
use crate::quote::{valid_record, Quote, QuoteSet, QuoteView, DELIMITER};

verus! {

/// `line` without one carriage return at its end, if it has one there.
pub open spec fn without_return(line: Seq<char>) -> Seq<char> {
    if line.len() > 0 && line.last() == '\r' {
        line.drop_last()
    } else {
        line
    }
}

/// The lines of `source`. A line ends at a line feed, which is not part of it,
/// nor is a carriage return directly before that line feed. What follows the
/// last line feed is a line of its own unless it is empty.
pub open spec fn lines_of(source: Seq<char>) -> Seq<Seq<char>>
    decreases source.len(),
{
    if source.len() == 0 {
        Seq::empty()
    } else {
        match source.index_of_first('\n') {
            None => seq![source],
            Some(end) => {
                proof {
                    source.index_of_first_ensures('\n');
                }
                seq![without_return(source.take(end))] + lines_of(source.skip(end + 1))
            },
        }
    }
}

/// The position of the first occurrence of `c` in `s` is the one position
/// that holds `c` with no `c` before it.
proof fn lemma_first_at(s: Seq<char>, c: char, k: int)
    requires
        0 <= k < s.len(),
        s[k] == c,
        forall|j: int| 0 <= j < k ==> s[j] != c,
    ensures
        s.index_of_first(c) == Some(k),
{
    s.index_of_first_ensures(c);
}

/// A text that ends in no line feed and holds none is one line, or none if empty.
proof fn lemma_last_line(line: Seq<char>)
    requires
        !line.contains('\n'),
    ensures
        lines_of(line) == if line.len() == 0 {
            Seq::<Seq<char>>::empty()
        } else {
            seq![line]
        },
{
    line.index_of_first_ensures('\n');
}

/// A first line followed by a line feed is followed by the lines of the rest.
proof fn lemma_next_line(line: Seq<char>, rest: Seq<char>)
    requires
        !line.contains('\n'),
    ensures
        lines_of(line + seq!['\n'] + rest) == seq![without_return(line)] + lines_of(rest),
{
    let source = line + seq!['\n'] + rest;
    let end: int = line.len() as int;
    assert forall|j: int| 0 <= j < end implies source[j] != '\n' by {
        assert(source[j] == line[j]);
    }
    lemma_first_at(source, '\n', end);
    assert(source.take(end) == line);
    assert(source.skip(end + 1) == rest);
}

/// Splits `source` into its lines.
pub fn split_lines(source: &str) -> (lines: Vec<String>)
    ensures
        lines.deep_view() == lines_of(source@),
{
    let mut lines: Vec<String> = Vec::new();
    let mut line = String::new();
    let mut after_return: bool = false;
    proof {
        assert(line@ + source@.skip(0) == source@);
    }
    for c in it: source.chars()
        invariant
            it.seq() == source@,
            !line@.contains('\n'),
            after_return == (line@.len() > 0 && line@.last() == '\r'),
            lines_of(source@) == lines.deep_view() + lines_of(
                line@ + source@.skip(it.index() as int),
            ),
    {
        let ghost i: int = it.index() as int;
        let ghost rest = source@.skip(i + 1);
        if c == '\n' {
            proof {
                assert(line@ + source@.skip(i) == line@ + seq!['\n'] + rest);
                lemma_next_line(line@, rest);
            }
            if after_return {
                line.pop();
            }
            lines.push(line);
            line = String::new();
            after_return = false;
        } else {
            proof {
                assert(line@.push(c) + rest == line@ + source@.skip(i));
                let grown = line@.push(c);
                if grown.contains('\n') {
                    let j: int = choose|j: int| 0 <= j < grown.len() && grown[j] == '\n';
                    assert(line@[j] == '\n');
                }
            }
            line.push(c);
            after_return = c == '\r';
        }
    }
    proof {
        lemma_last_line(line@);
    }
    if !line.as_str().is_empty() {
        lines.push(line);
    }
    lines
}

/// The record that `line` stands for: the text before its first delimiter and
/// the attribution after it, provided that both make a valid record. So a line
/// without a delimiter, with more than one, or with an empty side is no record.
pub open spec fn record_of(line: Seq<char>) -> Option<QuoteView> {
    match line.index_of_first(DELIMITER) {
        None => None,
        Some(at) => {
            let record = QuoteView { text: line.take(at), attribution: line.skip(at + 1) };
            if valid_record(record) {
                Some(record)
            } else {
                None
            }
        },
    }
}

/// A line written as a valid record's text, the delimiter and its attribution
/// is read back as that record.
pub proof fn lemma_record_round_trip(record: QuoteView)
    requires
        valid_record(record),
    ensures
        record_of(record.text + seq![DELIMITER] + record.attribution) == Some(record),
{
    let line = record.text + seq![DELIMITER] + record.attribution;
    let at: int = record.text.len() as int;
    assert forall|j: int| 0 <= j < at implies line[j] != DELIMITER by {
        assert(line[j] == record.text[j]);
    }
    lemma_first_at(line, DELIMITER, at);
    assert(line.take(at) == record.text);
    assert(line.skip(at + 1) == record.attribution);
}

/// A line that is a record is that record's text, one delimiter and its
/// attribution, both non-empty and free of the delimiter: the line holds the
/// delimiter exactly once.
pub proof fn lemma_record_shape(line: Seq<char>)
    requires
        record_of(line) is Some,
    ensures
        valid_record(record_of(line)->0),
        line == record_of(line)->0.text + seq![DELIMITER] + record_of(line)->0.attribution,
{
    line.index_of_first_ensures(DELIMITER);
    let at: int = line.index_of_first(DELIMITER)->0;
    assert(line == line.take(at) + seq![DELIMITER] + line.skip(at + 1));
}

/// No line of a source holds a line feed.
pub proof fn lemma_lines_hold_no_feed(source: Seq<char>, index: int)
    requires
        0 <= index < lines_of(source).len(),
    ensures
        !lines_of(source)[index].contains('\n'),
    decreases source.len(),
{
    source.index_of_first_ensures('\n');
    match source.index_of_first('\n') {
        None => {},
        Some(end) => {
            let head = source.take(end);
            let rest = source.skip(end + 1);
            if index == 0 {
                let line = without_return(head);
                if line.contains('\n') {
                    let j: int = choose|j: int| 0 <= j < line.len() && line[j] == '\n';
                    assert(source[j] == '\n');
                }
            } else {
                lemma_lines_hold_no_feed(rest, index - 1);
            }
        },
    }
}

/// Reads one line of a quotes source.
pub fn parse_line(line: &str) -> (record: Option<Quote>)
    ensures
        record is Some <==> record_of(line@) is Some,
        record matches Some(q) ==> Some(q@) == record_of(line@),
{
    let mut text = String::new();
    let mut attribution = String::new();
    let mut found: bool = false;
    let ghost mut at: int = 0;
    for c in it: line.chars()
        invariant
            it.seq() == line@,
            !found ==> {
                &&& text@ == line@.take(it.index() as int)
                &&& !text@.contains(DELIMITER)
                &&& attribution@.len() == 0
            },
            found ==> {
                &&& 0 <= at < it.index()
                &&& line@.index_of_first(DELIMITER) == Some(at)
                &&& text@ == line@.take(at)
                &&& attribution@ == line@.subrange(at + 1, it.index() as int)
            },
    {
        let ghost i: int = it.index() as int;
        if found {
            attribution.push(c);
        } else if c == DELIMITER {
            proof {
                assert forall|j: int| 0 <= j < i implies line@[j] != DELIMITER by {
                    assert(text@[j] == line@[j]);
                }
                lemma_first_at(line@, DELIMITER, i);
                at = i;
            }
            found = true;
        } else {
            proof {
                let grown = text@.push(c);
                if grown.contains(DELIMITER) {
                    let j: int = choose|j: int| 0 <= j < grown.len() && grown[j] == DELIMITER;
                    assert(text@[j] == DELIMITER);
                }
            }
            text.push(c);
        }
    }
    if found {
        Quote::new(text, attribution)
    } else {
        proof {
            assert(line@.take(line@.len() as int) == line@);
            line@.index_of_first_ensures(DELIMITER);
        }
        None
    }
}

/// Why a quotes source was refused.
#[derive(Debug)]
pub enum LoadError {
    /// The line at `index`, counted from zero, is no record; `line` is its text.
    InvalidLine { index: usize, line: String },
    /// The source holds no line, so there is nothing to serve.
    NoQuotes,
}

/// True when each of `lines` is a record.
pub open spec fn all_records(lines: Seq<Seq<char>>) -> bool {
    forall|i: int| 0 <= i < lines.len() ==> (#[trigger] record_of(lines[i])) is Some
}

/// The records that `lines` stand for, in their order.
pub open spec fn records_of(lines: Seq<Seq<char>>) -> Seq<QuoteView>
    recommends
        all_records(lines),
{
    Seq::new(lines.len(), |i: int| record_of(lines[i])->0)
}

/// Reads a whole quotes source. It is accepted when it has at least one line
/// and each line is a record; the set then holds the records in the order of
/// their lines. Otherwise the error names the first line that is no record,
/// or says that there was none at all.
pub fn parse_quotes(source: &str) -> (loaded: Result<QuoteSet, LoadError>)
    ensures
        match loaded {
            Ok(set) => {
                &&& lines_of(source@).len() > 0
                &&& all_records(lines_of(source@))
                &&& set@ == records_of(lines_of(source@))
            },
            Err(LoadError::InvalidLine { index, line }) => {
                &&& index < lines_of(source@).len()
                &&& record_of(lines_of(source@)[index as int]) is None
                &&& all_records(lines_of(source@).take(index as int))
                &&& line@ == lines_of(source@)[index as int]
            },
            Err(LoadError::NoQuotes) => lines_of(source@).len() == 0,
        },
{
    let lines = split_lines(source);
    let ghost texts = lines_of(source@);
    let mut records: Vec<Quote> = Vec::new();
    let mut i: usize = 0;
    while i < lines.len()
        invariant
            i <= lines@.len(),
            texts == lines_of(source@),
            lines.deep_view() == texts,
            records@.len() == i,
            forall|j: int| 0 <= j < i ==> Some((#[trigger] records@[j])@) == record_of(texts[j]),
        decreases lines@.len() - i,
    {
        match parse_line(lines[i].as_str()) {
            Some(record) => {
                records.push(record);
            },
            None => {
                proof {
                    let before = texts.take(i as int);
                    assert forall|j: int| 0 <= j < before.len() implies record_of(
                        #[trigger] before[j],
                    ) is Some by {
                        assert(Some(records@[j]@) == record_of(texts[j]));
                    }
                }
                return Err(LoadError::InvalidLine { index: i, line: lines[i].clone() });
            },
        }
        i = i + 1;
    }
    proof {
        assert forall|j: int| 0 <= j < texts.len() implies record_of(
            #[trigger] texts[j],
        ) is Some by {
            assert(Some(records@[j]@) == record_of(texts[j]));
        }
    }
    match QuoteSet::new(records) {
        Some(set) => {
            proof {
                let loaded = records_of(texts);
                assert forall|j: int| 0 <= j < texts.len() implies set@[j] == loaded[j] by {
                    assert(Some(records@[j]@) == record_of(texts[j]));
                }
            }
            Ok(set)
        },
        None => Err(LoadError::NoQuotes),
    }
}

} // verus!
