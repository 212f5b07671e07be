//! How deep a TOML text nests.
//!
//! A scan goes through the text once, character by character. It leaves
//! out what stands in strings and comments, follows the brackets and
//! braces that are open, and counts the dots of dotted keys and of table
//! headers. The deepest nesting that it meets bounds what a parser of the
//! text has to go down.
//!
//! The scan reads strings and comments as the tokenizer of the `toml`
//! crate does: a quote opens a string wherever a token may start; two
//! quotes are an empty string unless a third follows, which opens a long
//! string; a long string ends at three quotes, and up to two more quotes
//! still belong to it; a backslash takes the next character with it in a
//! string with double quotes and is a plain character in one with single
//! quotes; a comment runs to the end of the line; and the line of a table
//! header ends at the first line break, whatever stands before it.

use vstd::prelude::*;
use crate::text::to_chars;

verus! {

/// Where the counters of a scan stop.
pub const NESTING_CAP: usize = 1000000;

/// Where in the text a scan stands.
#[derive(Clone, Copy, Debug, PartialEq, Eq, Structural)]
pub enum Mode {
    /// Outside strings and comments.
    Code,
    /// In a comment, which runs to the end of the line.
    Comment,
    /// After the quote that opens a string.
    Open1,
    /// After two quotes: an empty string, or the start of a long string.
    Open2,
    /// In a string of one line.
    Short,
    /// In a string of one line, after a backslash.
    ShortEscape,
    /// In a long string, which ends at three quotes.
    Long,
    /// In a long string, after a backslash.
    LongEscape,
    /// In a long string, after one quote.
    LongQuote1,
    /// In a long string, after two quotes.
    LongQuote2,
    /// After the three quotes that close a long string; up to two more
    /// quotes still belong to it.
    Closed0,
    /// After the three closing quotes and one more.
    Closed1,
}

/// The state of a scan.
pub struct ScanView {
    pub mode: Mode,
    /// The quote of the string that the scan is in.
    pub delim: char,
    /// Whether the scan is on the line of a table header.
    pub header: bool,
    /// Whether nothing but white space came since the last statement.
    pub fresh: bool,
    /// Whether the scan stands right after the bracket that opens a
    /// header.
    pub header_opened: bool,
    /// Whether a header of an array of tables, with two brackets, came.
    pub arrays: bool,
    /// The dots of the header that the scan is in.
    pub header_dots: usize,
    /// The nesting that the last table header gives.
    pub base: usize,
    /// The nesting at this point.
    pub depth: usize,
    /// The dots since the last separator: those of a key, if an equals
    /// sign follows.
    pub pending: usize,
    /// The deepest nesting so far.
    pub deepest: usize,
    /// For each bracket or brace that is open, the nesting before it.
    pub saved: Seq<usize>,
}

/// `a + b`, stopping at the cap.
pub open spec fn capped_sum(a: usize, b: usize) -> usize {
    if a >= NESTING_CAP || b >= NESTING_CAP || a + b >= NESTING_CAP {
        NESTING_CAP
    } else {
        (a + b) as usize
    }
}

/// The larger of two numbers.
pub open spec fn larger(a: usize, b: usize) -> usize {
    if a >= b {
        a
    } else {
        b
    }
}

/// The nesting that a header with so many dots gives: one level for
/// each part. Once a header of an array of tables came, a part may name
/// such an array, which nests twice.
pub open spec fn header_depth(dots: usize, arrays: bool) -> usize {
    if arrays {
        capped_sum(capped_sum(dots, 1), capped_sum(dots, 1))
    } else {
        capped_sum(dots, 1)
    }
}

/// The state at the start of a text.
pub open spec fn start() -> ScanView {
    ScanView {
        mode: Mode::Code,
        delim: '"',
        header: false,
        fresh: true,
        header_opened: false,
        arrays: false,
        header_dots: 0,
        base: 0,
        depth: 0,
        pending: 0,
        deepest: 0,
        saved: Seq::empty(),
    }
}

/// The state after the end of a line. A header's line sets the nesting
/// that the following statements start from; outside brackets a line's
/// end closes the statement.
pub open spec fn end_line(s: ScanView) -> ScanView {
    if s.header {
        ScanView {
            mode: Mode::Code,
            header: false,
            fresh: true,
            header_opened: false,
            header_dots: 0,
            base: header_depth(s.header_dots, s.arrays),
            depth: header_depth(s.header_dots, s.arrays),
            pending: 0,
            deepest: larger(s.deepest, header_depth(s.header_dots, s.arrays)),
            ..s
        }
    } else if s.saved.len() == 0 {
        ScanView { mode: Mode::Code, fresh: true, depth: s.base, pending: 0, ..s }
    } else {
        ScanView { mode: Mode::Code, pending: 0, ..s }
    }
}

/// The state after a character outside strings and comments.
pub open spec fn code_step(s: ScanView, c: char) -> ScanView {
    if c == '\n' {
        end_line(s)
    } else if c == '#' {
        ScanView { mode: Mode::Comment, header_opened: false, ..s }
    } else if s.header {
        if c == '.' {
            ScanView {
                mode: Mode::Code,
                header_opened: false,
                header_dots: capped_sum(s.header_dots, 1),
                ..s
            }
        } else if c == '"' || c == '\'' {
            ScanView { mode: Mode::Open1, delim: c, header_opened: false, ..s }
        } else if c == '[' && s.header_opened {
            ScanView { mode: Mode::Code, header_opened: false, arrays: true, ..s }
        } else {
            ScanView { mode: Mode::Code, header_opened: false, ..s }
        }
    } else if c == ' ' || c == '\t' || c == '\r' || c == '\u{feff}' {
        ScanView { mode: Mode::Code, ..s }
    } else if c == '"' || c == '\'' {
        ScanView { mode: Mode::Open1, delim: c, fresh: false, ..s }
    } else if c == '[' && s.fresh && s.saved.len() == 0 {
        ScanView {
            mode: Mode::Code,
            header: true,
            header_opened: true,
            header_dots: 0,
            fresh: false,
            ..s
        }
    } else if c == '[' || c == '{' {
        ScanView {
            mode: Mode::Code,
            fresh: false,
            depth: capped_sum(s.depth, 1),
            pending: 0,
            deepest: larger(s.deepest, capped_sum(s.depth, 1)),
            saved: s.saved.push(s.depth),
            ..s
        }
    } else if c == ']' || c == '}' {
        if s.saved.len() > 0 {
            ScanView {
                mode: Mode::Code,
                fresh: false,
                depth: s.saved.last(),
                pending: 0,
                saved: s.saved.drop_last(),
                ..s
            }
        } else {
            ScanView { mode: Mode::Code, fresh: false, pending: 0, ..s }
        }
    } else if c == ',' {
        if s.saved.len() > 0 {
            ScanView {
                mode: Mode::Code,
                fresh: false,
                depth: capped_sum(s.saved.last(), 1),
                pending: 0,
                ..s
            }
        } else {
            ScanView { mode: Mode::Code, fresh: false, pending: 0, ..s }
        }
    } else if c == '.' {
        ScanView { mode: Mode::Code, fresh: false, pending: capped_sum(s.pending, 1), ..s }
    } else if c == '=' {
        ScanView {
            mode: Mode::Code,
            fresh: false,
            depth: capped_sum(s.depth, s.pending),
            pending: 0,
            deepest: larger(s.deepest, capped_sum(s.depth, s.pending)),
            ..s
        }
    } else {
        ScanView { mode: Mode::Code, fresh: false, ..s }
    }
}

/// The state after a character in a string of one line.
pub open spec fn short_step(s: ScanView, c: char) -> ScanView {
    if c == '\n' {
        end_line(s)
    } else if c == s.delim {
        ScanView { mode: Mode::Code, ..s }
    } else if c == '\\' && s.delim == '"' {
        ScanView { mode: Mode::ShortEscape, ..s }
    } else {
        ScanView { mode: Mode::Short, ..s }
    }
}

/// The state after a character in a long string.
pub open spec fn long_step(s: ScanView, c: char) -> ScanView {
    if c == s.delim {
        ScanView { mode: Mode::LongQuote1, ..s }
    } else if c == '\\' && s.delim == '"' {
        ScanView { mode: Mode::LongEscape, ..s }
    } else {
        ScanView { mode: Mode::Long, ..s }
    }
}

/// The state after one more character. The line of a table header ends
/// at the first line break, whatever stands before it.
pub open spec fn step(s: ScanView, c: char) -> ScanView {
    if s.header && c == '\n' {
        end_line(s)
    } else {
        match s.mode {
            Mode::Code => code_step(s, c),
            Mode::Comment => if c == '\n' {
                end_line(s)
            } else {
                s
            },
            Mode::Open1 => if c == s.delim {
                ScanView { mode: Mode::Open2, ..s }
            } else {
                short_step(s, c)
            },
            Mode::Open2 => if c == s.delim {
                ScanView { mode: Mode::Long, ..s }
            } else {
                code_step(s, c)
            },
            Mode::Short => short_step(s, c),
            Mode::ShortEscape => ScanView { mode: Mode::Short, ..s },
            Mode::Long => long_step(s, c),
            Mode::LongEscape => ScanView { mode: Mode::Long, ..s },
            Mode::LongQuote1 => if c == s.delim {
                ScanView { mode: Mode::LongQuote2, ..s }
            } else {
                long_step(s, c)
            },
            Mode::LongQuote2 => if c == s.delim {
                ScanView { mode: Mode::Closed0, ..s }
            } else {
                long_step(s, c)
            },
            Mode::Closed0 => if c == s.delim {
                ScanView { mode: Mode::Closed1, ..s }
            } else {
                code_step(s, c)
            },
            Mode::Closed1 => if c == s.delim {
                ScanView { mode: Mode::Code, ..s }
            } else {
                code_step(s, c)
            },
        }
    }
}

/// The state after a whole text.
pub open spec fn scanned(text: Seq<char>) -> ScanView
    decreases text.len(),
{
    if text.len() == 0 {
        start()
    } else {
        step(scanned(text.drop_last()), text.last())
    }
}

/// The deepest nesting of a TOML text: the most levels that are open at
/// one point, counting one for each bracket and brace that is open, one
/// for each dot of the keys that lead there, and one for each part of the
/// table header above (two, once the text has arrays of tables). Strings
/// and comments count for nothing.
pub open spec fn toml_nesting(text: Seq<char>) -> nat {
    end_line(scanned(text)).deepest as nat
}

/// A scan as it runs.
pub struct Scan {
    pub mode: Mode,
    pub delim: char,
    pub header: bool,
    pub fresh: bool,
    pub header_opened: bool,
    pub arrays: bool,
    pub header_dots: usize,
    pub base: usize,
    pub depth: usize,
    pub pending: usize,
    pub deepest: usize,
    pub saved: Vec<usize>,
}

impl View for Scan {
    type V = ScanView;

    open spec fn view(&self) -> ScanView {
        ScanView {
            mode: self.mode,
            delim: self.delim,
            header: self.header,
            fresh: self.fresh,
            header_opened: self.header_opened,
            arrays: self.arrays,
            header_dots: self.header_dots,
            base: self.base,
            depth: self.depth,
            pending: self.pending,
            deepest: self.deepest,
            saved: self.saved@,
        }
    }
}

fn sum_capped(a: usize, b: usize) -> (r: usize)
    ensures
        r == capped_sum(a, b),
{
    if a >= NESTING_CAP || b >= NESTING_CAP || a + b >= NESTING_CAP {
        NESTING_CAP
    } else {
        a + b
    }
}

fn larger_of(a: usize, b: usize) -> (r: usize)
    ensures
        r == larger(a, b),
{
    if a >= b {
        a
    } else {
        b
    }
}

impl Scan {
    /// The scan at the start of a text.
    pub fn new() -> (r: Scan)
        ensures
            r@ == start(),
    {
        Scan {
            mode: Mode::Code,
            delim: '"',
            header: false,
            fresh: true,
            header_opened: false,
            arrays: false,
            header_dots: 0,
            base: 0,
            depth: 0,
            pending: 0,
            deepest: 0,
            saved: Vec::new(),
        }
    }

    fn end_line(self) -> (r: Scan)
        ensures
            r@ == end_line(self@),
    {
        let mut s = self;
        s.mode = Mode::Code;
        s.pending = 0;
        if s.header {
            let parts = sum_capped(s.header_dots, 1);
            let nesting = if s.arrays {
                sum_capped(parts, parts)
            } else {
                parts
            };
            s.header = false;
            s.fresh = true;
            s.header_opened = false;
            s.header_dots = 0;
            s.base = nesting;
            s.depth = nesting;
            s.deepest = larger_of(s.deepest, nesting);
        } else if s.saved.len() == 0 {
            s.fresh = true;
            s.depth = s.base;
        }
        s
    }

    fn code_step(self, c: char) -> (r: Scan)
        ensures
            r@ == code_step(self@, c),
    {
        if c == '\n' {
            return self.end_line();
        }
        let mut s = self;
        if c == '#' {
            s.mode = Mode::Comment;
            s.header_opened = false;
        } else if s.header {
            s.mode = Mode::Code;
            if c == '.' {
                s.header_dots = sum_capped(s.header_dots, 1);
            } else if c == '"' || c == '\'' {
                s.mode = Mode::Open1;
                s.delim = c;
            } else if c == '[' && s.header_opened {
                s.arrays = true;
            }
            s.header_opened = false;
        } else if c == ' ' || c == '\t' || c == '\r' || c == '\u{feff}' {
            s.mode = Mode::Code;
        } else if c == '"' || c == '\'' {
            s.mode = Mode::Open1;
            s.delim = c;
            s.fresh = false;
        } else if c == '[' && s.fresh && s.saved.len() == 0 {
            s.mode = Mode::Code;
            s.header = true;
            s.header_opened = true;
            s.header_dots = 0;
            s.fresh = false;
        } else if c == '[' || c == '{' {
            s.mode = Mode::Code;
            s.fresh = false;
            s.saved.push(s.depth);
            s.depth = sum_capped(s.depth, 1);
            s.pending = 0;
            s.deepest = larger_of(s.deepest, s.depth);
        } else if c == ']' || c == '}' {
            s.mode = Mode::Code;
            s.fresh = false;
            s.pending = 0;
            if s.saved.len() > 0 {
                let ghost before = s.saved@;
                match s.saved.pop() {
                    Some(depth) => {
                        s.depth = depth;
                    },
                    None => {},
                }
                assert(s.saved@ =~= before.drop_last());
            }
        } else if c == ',' {
            s.mode = Mode::Code;
            s.fresh = false;
            s.pending = 0;
            if s.saved.len() > 0 {
                s.depth = sum_capped(s.saved[s.saved.len() - 1], 1);
            }
        } else if c == '.' {
            s.mode = Mode::Code;
            s.fresh = false;
            s.pending = sum_capped(s.pending, 1);
        } else if c == '=' {
            s.mode = Mode::Code;
            s.fresh = false;
            s.depth = sum_capped(s.depth, s.pending);
            s.pending = 0;
            s.deepest = larger_of(s.deepest, s.depth);
        } else {
            s.mode = Mode::Code;
            s.fresh = false;
        }
        s
    }

    fn short_step(self, c: char) -> (r: Scan)
        ensures
            r@ == short_step(self@, c),
    {
        if c == '\n' {
            return self.end_line();
        }
        let mut s = self;
        if c == s.delim {
            s.mode = Mode::Code;
        } else if c == '\\' && s.delim == '"' {
            s.mode = Mode::ShortEscape;
        } else {
            s.mode = Mode::Short;
        }
        s
    }

    fn long_step(self, c: char) -> (r: Scan)
        ensures
            r@ == long_step(self@, c),
    {
        let mut s = self;
        if c == s.delim {
            s.mode = Mode::LongQuote1;
        } else if c == '\\' && s.delim == '"' {
            s.mode = Mode::LongEscape;
        } else {
            s.mode = Mode::Long;
        }
        s
    }

    /// The scan after one more character.
    pub fn step(self, c: char) -> (r: Scan)
        ensures
            r@ == step(self@, c),
    {
        if self.header && c == '\n' {
            return self.end_line();
        }
        let closes = c == self.delim;
        match self.mode {
            Mode::Code => self.code_step(c),
            Mode::Comment => if c == '\n' {
                self.end_line()
            } else {
                self
            },
            Mode::Open1 => if closes {
                let mut s = self;
                s.mode = Mode::Open2;
                s
            } else {
                self.short_step(c)
            },
            Mode::Open2 => if closes {
                let mut s = self;
                s.mode = Mode::Long;
                s
            } else {
                self.code_step(c)
            },
            Mode::Short => self.short_step(c),
            Mode::ShortEscape => {
                let mut s = self;
                s.mode = Mode::Short;
                s
            },
            Mode::Long => self.long_step(c),
            Mode::LongEscape => {
                let mut s = self;
                s.mode = Mode::Long;
                s
            },
            Mode::LongQuote1 => if closes {
                let mut s = self;
                s.mode = Mode::LongQuote2;
                s
            } else {
                self.long_step(c)
            },
            Mode::LongQuote2 => if closes {
                let mut s = self;
                s.mode = Mode::Closed0;
                s
            } else {
                self.long_step(c)
            },
            Mode::Closed0 => if closes {
                let mut s = self;
                s.mode = Mode::Closed1;
                s
            } else {
                self.code_step(c)
            },
            Mode::Closed1 => if closes {
                let mut s = self;
                s.mode = Mode::Code;
                s
            } else {
                self.code_step(c)
            },
        }
    }
}

/// Measures the deepest nesting of a TOML text.
pub fn measure_nesting(text: &str) -> (r: usize)
    ensures
        r == toml_nesting(text@),
{
    let chars = to_chars(text);
    let mut scan = Scan::new();
    let mut k: usize = 0;
    while k < chars.len()
        invariant
            k <= chars.len(),
            scan@ == scanned(chars@.take(k as int)),
        decreases chars.len() - k,
    {
        proof {
            assert(chars@.take(k + 1).drop_last() =~= chars@.take(k as int));
        }
        scan = scan.step(chars[k]);
        k += 1;
    }
    proof {
        assert(chars@.take(k as int) =~= chars@);
    }
    scan.end_line().deepest
}

} // verus!
