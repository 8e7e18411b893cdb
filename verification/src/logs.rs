//! Log lines collected from a capsule's output streams.

use vstd::prelude::*;
use crate::text::{chars_of, split_char, split_char_ranges, string_of_range, strs_view};

verus! {

/// One log line with its metadata.
#[derive(Debug)]
pub struct LogEntry {
    pub timestamp: u64,
    pub stream: LogStreamType,
    pub line: String,
}

/// The stream a line came from.
#[derive(Clone, Copy, Debug, PartialEq, Eq, Structural)]
pub enum LogStreamType {
    Stdout,
    Stderr,
}

/// Name of a stream as written in logs.
pub open spec fn stream_name(s: LogStreamType) -> Seq<char> {
    match s {
        LogStreamType::Stdout => "stdout"@,
        LogStreamType::Stderr => "stderr"@,
    }
}

impl LogStreamType {
    pub fn as_str(&self) -> (r: &'static str)
        ensures
            r@ == stream_name(*self),
    {
        match self {
            LogStreamType::Stdout => "stdout",
            LogStreamType::Stderr => "stderr",
        }
    }

    /// The stream's name as an owned string.
    pub fn to_string(&self) -> (r: String)
        ensures
            r@ == stream_name(*self),
    {
        self.as_str().to_owned()
    }
}

/// A line as `BufRead::lines` gives it: a line ended by a newline loses a
/// carriage return before it.
pub open spec fn strip_cr(piece: Seq<char>) -> Seq<char> {
    if piece.len() > 0 && piece.last() == '\r' {
        piece.drop_last()
    } else {
        piece
    }
}

/// The lines of a text as `BufRead::lines` reads them: split at newlines,
/// a carriage return before a newline dropped, and no line after a final
/// newline.
pub open spec fn text_lines(text: Seq<char>) -> Seq<Seq<char>> {
    let pieces = split_char(text, '\n');
    let last = pieces.last();
    let ended = Seq::new((pieces.len() - 1) as nat, |i: int| strip_cr(pieces[i]));
    if last.len() == 0 {
        ended
    } else {
        ended.push(last)
    }
}

/// The last `n` of the lines (all of them where there are fewer).
pub open spec fn tail(lines: Seq<Seq<char>>, n: Option<usize>) -> Seq<Seq<char>> {
    match n {
        Some(k) => if k < lines.len() {
            lines.skip(lines.len() - k)
        } else {
            lines
        },
        None => lines,
    }
}

/// The lines of a text, as `BufRead::lines` reads them.
pub fn lines_of(text: &str) -> (r: Vec<String>)
    ensures
        strs_view(r@) == text_lines(text@),
{
    let v = chars_of(text);
    let ranges = split_char_ranges(&v, '\n');
    let ghost pieces = split_char(text@, '\n');
    let mut lines: Vec<String> = Vec::new();
    let n = ranges.len();
    let mut i: usize = 0;
    while i + 1 < n
        invariant
            v@ == text@,
            n == ranges@.len(),
            n >= 1,
            pieces == split_char(text@, '\n'),
            Seq::new(ranges@.len(), |q: int| v@.subrange(ranges@[q].0 as int, ranges@[q].1 as int))
                == pieces,
            forall|q: int| 0 <= q < ranges@.len() ==> #[trigger] ranges@[q].0 <= ranges@[q].1 <= v@.len(),
            i <= n - 1,
            strs_view(lines@) == Seq::new(i as nat, |k: int| strip_cr(pieces[k])),
        decreases n - i,
    {
        let (a, b) = ranges[i];
        assert(v@.subrange(a as int, b as int) == pieces[i as int]);
        let end = if a < b && v[b - 1] == '\r' {
            b - 1
        } else {
            b
        };
        let line = string_of_range(&v, a, end);
        assert(line@ =~= strip_cr(pieces[i as int]));
        let ghost before = strs_view(lines@);
        let ghost lv = line@;
        lines.push(line);
        assert(strs_view(lines@) =~= before.push(lv));
        assert(strs_view(lines@) =~= Seq::new((i + 1) as nat, |k: int| strip_cr(pieces[k])));
        i += 1;
    }
    let (a, b) = ranges[n - 1];
    assert(v@.subrange(a as int, b as int) == pieces[n - 1]);
    let ghost ended = strs_view(lines@);
    if a < b {
        let last = string_of_range(&v, a, b);
        lines.push(last);
        assert(strs_view(lines@) =~= ended.push(pieces.last()));
    }
    lines
}

/// Reads the logs of capsules.
#[derive(Debug)]
pub struct LogCollector {}

impl LogCollector {
    pub fn new() -> (r: Self) {
        LogCollector {}
    }

    /// The entries of a log file's text (`get_logs`): its lines, or its last
    /// `tail_lines` lines, each stamped `timestamp` and read as standard output.
    pub fn get_logs(&self, text: &str, tail_lines: Option<usize>, timestamp: u64) -> (r: Vec<LogEntry>)
        ensures
            r@.len() == tail(text_lines(text@), tail_lines).len(),
            forall|i: int| 0 <= i < r@.len() ==> entry_holds(#[trigger] r@[i], tail(text_lines(text@), tail_lines)[i], timestamp),
    {
        let lines = lines_of(text);
        let ghost all = text_lines(text@);
        let total = lines.len();
        let start: usize = match tail_lines {
            Some(k) => if k < total {
                total - k
            } else {
                0
            },
            None => 0,
        };
        let ghost t = tail(all, tail_lines);
        assert(t =~= all.skip(start as int));
        let mut out: Vec<LogEntry> = Vec::new();
        let mut j: usize = start;
        while j < total
            invariant
                total == lines@.len(),
                strs_view(lines@) == all,
                t == all.skip(start as int),
                start <= j <= total,
                out@.len() == j - start,
                forall|k: int| 0 <= k < out@.len() ==> entry_holds(#[trigger] out@[k], t[k], timestamp),
            decreases total - j,
        {
            let e = LogEntry { timestamp, stream: LogStreamType::Stdout, line: lines[j].clone() };
            assert(e.line@ == all[j as int]);
            assert(entry_holds(e, t[j - start], timestamp));
            let ghost ov = out@;
            let ghost ev = e;
            out.push(e);
            assert forall|k: int| 0 <= k < out@.len() implies entry_holds(#[trigger] out@[k], t[k], timestamp) by {
                if k < ov.len() {
                    assert(out@[k] == ov[k]);
                } else {
                    assert(out@[k] == ev);
                }
            }
            j += 1;
        }
        out
    }
}

/// An entry holds a line, stamped and read as standard output.
pub open spec fn entry_holds(e: LogEntry, line: Seq<char>, timestamp: u64) -> bool {
    e.line@ == line && e.timestamp == timestamp && e.stream == LogStreamType::Stdout
}

} // verus!
