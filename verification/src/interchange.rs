//! The line-oriented interchange format of the text importer.
//!
//! Each line holds one verse: chapter number, verse number and text,
//! separated by pipes or, where the line has no pipe, by tabs. The text is
//! everything after the second separator. A byte-order marker may lead the
//! line. Lines that do not fit are skipped by the importer, so reading one
//! never fails: it gives a record or nothing.

use crate::text::{chars_of, find_char, leading_run, parse_u16, parse_u16_spec, strip_leading, trim, trim_range};
use vstd::prelude::*;
use vstd::string::*;

verus! {

/// The byte-order marker that may lead a line.
pub const MARKER: char = '\u{feff}';

/// The three fields of a line: what precedes the first separator, what
/// stands between the first and the second, and all that follows the second.
pub open spec fn split_fields(l: Seq<char>, sep: char) -> Option<
    (Seq<char>, Seq<char>, Seq<char>),
> {
    match l.index_of_first(sep) {
        None => None,
        Some(i) => {
            let rest = l.skip(i + 1);
            match rest.index_of_first(sep) {
                None => None,
                Some(j) => Some((l.take(i), rest.take(j), rest.skip(j + 1))),
            }
        },
    }
}

/// The record that a line without marker holds under one separator: both
/// numbers must read as unsigned 16-bit numbers once trimmed; the text is
/// trimmed too and may be empty.
pub open spec fn parse_record(l: Seq<char>, sep: char) -> Option<(u16, u16, Seq<char>)> {
    match split_fields(l, sep) {
        None => None,
        Some(fields) => match (parse_u16_spec(trim(fields.0)), parse_u16_spec(trim(fields.1))) {
            (Some(chapter), Some(verse)) => Some((chapter, verse, trim(fields.2))),
            _ => None,
        },
    }
}

/// The record that a line holds: chapter, verse and text. A line with a
/// pipe is read as pipe-delimited and never as tab-delimited.
pub open spec fn parse_line_spec(line: Seq<char>) -> Option<(u16, u16, Seq<char>)> {
    let l = strip_leading(line, '\u{feff}');
    if l.len() == 0 {
        None
    } else if l.contains('|') {
        parse_record(l, '|')
    } else {
        parse_record(l, '\t')
    }
}

/// Reads one line of the interchange format.
pub fn parse_line(line: &str) -> (r: Option<(u16, u16, String)>)
    ensures
        match r {
            Some(rec) => parse_line_spec(line@) == Some((rec.0, rec.1, rec.2@)),
            None => parse_line_spec(line@) is None,
        },
{
    let v = chars_of(line);
    let n = v.len();
    let start = leading_run(&v, MARKER);
    let ghost l = v@.skip(start as int);
    assert(l =~= v@.subrange(start as int, n as int));
    if start == n {
        return None;
    }
    let sep: char = match find_char(&v, start, n, '|') {
        Some(_) => '|',
        None => '\t',
    };
    proof {
        l.index_of_first_ensures('|');
        assert(parse_line_spec(line@) == parse_record(l, sep));
    }
    let p1: usize = match find_char(&v, start, n, sep) {
        Some(p) => p,
        None => {
            return None;
        },
    };
    let ghost rest = l.skip(p1 - start + 1);
    assert(rest =~= v@.subrange(p1 + 1, n as int));
    let p2: usize = match find_char(&v, p1 + 1, n, sep) {
        Some(p) => p,
        None => {
            return None;
        },
    };
    proof {
        assert(l.take(p1 - start) =~= v@.subrange(start as int, p1 as int));
        assert(rest.take(p2 - p1 - 1) =~= v@.subrange(p1 + 1, p2 as int));
        assert(rest.skip(p2 - p1) =~= v@.subrange(p2 + 1, n as int));
        assert(split_fields(l, sep) == Some(
            (
                v@.subrange(start as int, p1 as int),
                v@.subrange(p1 + 1, p2 as int),
                v@.subrange(p2 + 1, n as int),
            ),
        ));
    }
    let (a0, b0) = trim_range(&v, start, p1);
    let chapter: u16 = match parse_u16(&v, a0, b0) {
        Some(x) => x,
        None => {
            return None;
        },
    };
    let (a1, b1) = trim_range(&v, p1 + 1, p2);
    let verse: u16 = match parse_u16(&v, a1, b1) {
        Some(x) => x,
        None => {
            return None;
        },
    };
    let (a2, b2) = trim_range(&v, p2 + 1, n);
    let text = String::from_str(line.substring_char(a2, b2));
    Some((chapter, verse, text))
}

/// A byte-order marker in front of a line changes nothing: the line reads
/// as it does without the marker.
pub proof fn lemma_marker_ignored(line: Seq<char>)
    ensures
        parse_line_spec(seq!['\u{feff}'] + line) == parse_line_spec(line),
{
    let marked = seq!['\u{feff}'] + line;
    assert(marked[0] == '\u{feff}');
    assert(marked.drop_first() =~= line);
}

/// A line with a single pipe has two fields and no text: it holds no record,
/// whatever the two fields are.
pub proof fn lemma_two_fields_rejected(line: Seq<char>, at: int)
    requires
        0 <= at < line.len(),
        line[0] != '\u{feff}',
        line[at] == '|',
        forall|i: int| 0 <= i < line.len() && i != at ==> line[i] != '|',
    ensures
        parse_line_spec(line) is None,
{
    assert(strip_leading(line, '\u{feff}') == line);
    line.index_of_first_ensures('|');
    let first = line.index_of_first('|')->0;
    assert(first == at);
    let rest = line.skip(at + 1);
    rest.index_of_first_ensures('|');
    if rest.index_of_first('|') is Some {
        let j = rest.index_of_first('|')->0;
        assert(rest[j] == line[at + 1 + j]);
    }
}

/// A line without any separator holds no record.
pub proof fn lemma_no_separator_rejected(line: Seq<char>)
    requires
        !line.contains('|'),
        !line.contains('\t'),
    ensures
        parse_line_spec(line) is None,
    decreases line.len(),
{
    if line.len() > 0 && line[0] == '\u{feff}' {
        let rest = line.drop_first();
        assert forall|c: char| line.contains(c) || !rest.contains(c) by {
            if rest.contains(c) {
                let i = choose|i: int| 0 <= i < rest.len() && rest[i] == c;
                assert(line[i + 1] == c);
            }
        }
        lemma_no_separator_rejected(rest);
    } else {
        let l = strip_leading(line, '\u{feff}');
        assert(l == line);
        l.index_of_first_ensures('\t');
    }
}

} // verus!
