//! How deep a KDL text nests, and with it how often a recursive parser calls itself on it.
//!
//! The text is read once, character by character. Strings and comments are told apart from the rest,
//! so that the braces of blocks can be paired. A text weighs only where blocks or comments are open,
//! and no more the longer it gets. What cannot be a part of a document makes the reading lose its
//! way, and so does a raw string over several lines: from there on no brace is paired any more.
use crate::text::chars_of;
use vstd::prelude::*;
use vstd::string::*;

verus! {

broadcast use vstd::string::group_string_axioms;

/// How much a text may weigh at any place to be parsed.
pub const MAX_WEIGHT: u32 = 512;

/// How far a line of a string may be indented.
pub const MAX_INDENT: u32 = 1_000_000;

/// What is known of a word that may be a number.
#[derive(Clone, Copy, Debug, PartialEq, Eq, Structural)]
pub enum Word {
    /// It is none, or it does not matter what follows.
    Other,
    /// A sign.
    Sign,
    /// A zero, maybe with a sign.
    Zero,
    /// The prefix of a hexadecimal number, without digits.
    HexPrefix,
    /// The prefix of another number, without digits.
    Prefix,
    /// A hexadecimal number.
    Hex,
    /// A number that can end here.
    Number,
    /// A number that cannot end here.
    Unfinished,
}

/// What came last, apart from white space and comments.
#[derive(Clone, Copy, Debug, PartialEq, Eq, Structural)]
pub enum Last {
    /// Nothing: a node can begin.
    Start,
    /// The name of a node.
    Name,
    /// A word or a string that can be the key of a property.
    Key,
    /// A word or a string that cannot.
    Value,
    /// The sign between the key and the value of a property.
    Equals,
    /// The opening bracket of a type.
    Open,
    /// The name of a type.
    Named,
    /// A whole type.
    Type,
    /// The mark that comments out a node.
    NodeDash,
    /// The mark that comments out a part of a node.
    Dash,
    /// The end of a block.
    Block,
}

/// What the next character belongs to.
#[derive(Clone, Copy, Debug, PartialEq, Eq, Structural)]
pub enum Mode {
    /// Whatever comes.
    Code,
    /// What follows a string without white space.
    Closed,
    Word(Word),
    /// What follows a slash; whether the slash followed a word or a string without white space.
    Slash(bool),
    /// The start of a raw string or of a keyword.
    Hash,
    LineComment,
    /// A comment over any number of lines; its last character if that is a star or a slash.
    Comment(Option<char>),
    /// A string, after one quote.
    OneQuote,
    /// A string, after two quotes.
    TwoQuotes,
    /// A string over several lines, after three quotes.
    ThreeQuotes,
    /// The white space at the start of a line of such a string.
    Indent,
    /// So many quotes after it, that may end the string.
    EndQuotes(u32),
    /// So many quotes elsewhere in such a string.
    InnerQuotes(u32),
    Text,
    Escape,
    /// White space after a backslash in a string.
    Skipped,
    /// The start of a code point in a string.
    CodePoint,
    HexDigits,
    /// A raw string, after its first quote.
    RawQuote,
    /// A raw string, after two quotes.
    TwoRawQuotes,
    /// A raw string, after three quotes.
    ThreeRawQuotes,
    Raw,
    /// A raw string, after a quote that may end it, and the hash signs that were seen since.
    RawEnd,
    /// Anything: what follows is not told apart any more.
    Lost,
}

/// How far a text has been read.
#[derive(Clone, Copy, Debug, PartialEq, Eq, Structural)]
pub struct Scan {
    pub mode: Mode,
    pub last: Last,
    /// A backslash joins this line with the next.
    pub joined: bool,
    /// The last character was a carriage return.
    pub returned: bool,
    /// How many blocks are open.
    pub depth: u32,
    /// Something was commented out since no block was open.
    pub dashed: bool,
    /// The node is commented out, or may be.
    pub shed: bool,
    /// How many comments are open.
    pub nested: u32,
    /// How many stars and slashes are in the comment.
    pub pieces: u32,
    /// The string goes over several lines.
    pub lines: bool,
    /// How far its line is indented, and how far its least indented line is.
    pub indent: u32,
    pub least: u32,
    /// How many hash signs began the raw string.
    pub hashes: u32,
    /// How many hash signs were seen at its end.
    pub ended: u32,
    /// The code point, and how many digits it has so far.
    pub code: u32,
    pub digits: u32,
    /// What a string weighs if it turns out to be none.
    pub held: u32,
    /// What weighs for good.
    pub fixed: u32,
}

// ---------------------------------------------------------------------------
// Characters
// ---------------------------------------------------------------------------

/// `c` ends a line.
pub open spec fn is_newline(c: char) -> bool {
    ||| '\u{a}' <= c <= '\u{d}'
    ||| c == '\u{85}'
    ||| '\u{2028}' <= c <= '\u{2029}'
}

/// `c` is white space within a line.
pub open spec fn is_space(c: char) -> bool {
    ||| c == '\t'
    ||| c == ' '
    ||| c == '\u{a0}'
    ||| c == '\u{1680}'
    ||| '\u{2000}' <= c <= '\u{200a}'
    ||| c == '\u{202f}'
    ||| c == '\u{205f}'
    ||| c == '\u{3000}'
}

/// `c` may not stand in a document.
pub open spec fn is_forbidden(c: char) -> bool {
    ||| c <= '\u{8}'
    ||| '\u{e}' <= c <= '\u{1f}'
    ||| '\u{200e}' <= c <= '\u{200f}'
    ||| '\u{202a}' <= c <= '\u{202e}'
    ||| '\u{2066}' <= c <= '\u{2069}'
    ||| c == '\u{feff}'
}

/// `c` stands for itself, and for no part of a word.
pub open spec fn is_mark(c: char) -> bool {
    ||| c == '\\'
    ||| c == '/'
    ||| c == '('
    ||| c == ')'
    ||| c == '{'
    ||| c == '}'
    ||| c == '['
    ||| c == ']'
    ||| c == ';'
    ||| c == '"'
    ||| c == '#'
    ||| c == '='
}

/// `c` is a part of a word.
pub open spec fn is_word_char(c: char) -> bool {
    !is_newline(c) && !is_space(c) && !is_forbidden(c) && !is_mark(c)
}

/// What a hexadecimal digit counts.
pub open spec fn hex_value(c: char) -> Option<u32> {
    if '0' <= c <= '9' {
        Some((c as u32 - 48) as u32)
    } else if 'a' <= c <= 'f' {
        Some((c as u32 - 87) as u32)
    } else if 'A' <= c <= 'F' {
        Some((c as u32 - 55) as u32)
    } else {
        None
    }
}

/// What a character weighs where nothing is paired.
pub open spec fn mark_weight(c: char) -> u32 {
    if c == '{' {
        12
    } else if c == '/' {
        32
    } else if c == '*' {
        3
    } else {
        0
    }
}

// ---------------------------------------------------------------------------
// One character after another
// ---------------------------------------------------------------------------

impl Word {
    /// A word of one character.
    pub open spec fn first(c: char) -> Word {
        if c == '+' || c == '-' {
            Word::Sign
        } else if c == '0' {
            Word::Zero
        } else if '1' <= c <= '9' {
            Word::Number
        } else {
            Word::Other
        }
    }

    /// A number with one character more.
    pub open spec fn number(c: char) -> Word {
        if c == '.' || c == 'e' || c == 'E' || c == '+' || c == '-' {
            Word::Unfinished
        } else {
            Word::Number
        }
    }

    /// A word with one character more.
    pub open spec fn longer(self, c: char) -> Word {
        match self {
            Word::Other => Word::Other,
            Word::Sign => if '0' <= c <= '9' {
                Word::first(c)
            } else {
                Word::Other
            },
            Word::Zero => if c == 'x' || c == 'X' {
                Word::HexPrefix
            } else if c == 'o' || c == 'O' || c == 'b' || c == 'B' {
                Word::Prefix
            } else {
                Word::number(c)
            },
            Word::HexPrefix | Word::Hex => Word::Hex,
            Word::Prefix | Word::Number | Word::Unfinished => Word::number(c),
        }
    }

    /// A word can end here.
    pub open spec fn can_end(self) -> bool {
        !(self is HexPrefix || self is Prefix || self is Unfinished)
    }
}

impl Last {
    /// What comes last once a word or a string has begun within a node, where one can.
    pub open spec fn begun(self) -> Option<Last> {
        match self {
            Last::Name | Last::Key | Last::Value | Last::Dash => Some(Last::Key),
            Last::Equals | Last::Type => Some(Last::Value),
            Last::Open => Some(Last::Named),
            _ => None,
        }
    }

    /// Nothing is missing: a comment can follow up to the end of the line.
    pub open spec fn can_end(self) -> bool {
        !(self is Equals || self is Open || self is Named || self is Type)
    }

    /// There is a node, and it can be over.
    pub open spec fn has_node(self) -> bool {
        self is Name || self is Key || self is Value || self is Block
    }

    /// What follows is commented out.
    pub open spec fn is_dash(self) -> bool {
        self is NodeDash || self is Dash
    }
}

impl Scan {
    /// Nothing has been read.
    pub open spec fn begun() -> Scan {
        Scan {
            mode: Mode::Code,
            last: Last::Start,
            joined: false,
            returned: false,
            depth: 0,
            dashed: false,
            shed: false,
            nested: 0,
            pieces: 0,
            lines: false,
            indent: 0,
            least: 0,
            hashes: 0,
            ended: 0,
            code: 0,
            digits: 0,
            held: 0,
            fixed: 0,
        }
    }

    /// What the place that was reached weighs: the blocks and the comments that are open there, and
    /// what could not be paired. Blocks weigh more where something is commented out, since that is
    /// read more than once.
    pub open spec fn weight(self) -> int {
        self.fixed + self.held + 3 * self.pieces + self.nested + self.hashes + self.ended + (
        if self.dashed {
            128 * self.depth
        } else {
            12 * self.depth
        })
    }

    /// The way is lost at `c`.
    pub open spec fn lost(self, c: char) -> Scan {
        Scan { mode: Mode::Lost, fixed: (self.fixed + mark_weight(c)) as u32, ..self }
    }

    /// A node can begin, or can be commented out. It can follow on the same line where the one
    /// before is commented out and has ended with a block.
    pub open spec fn at_node(self) -> bool {
        self.last is Start || self.last is NodeDash || (self.last is Block && self.shed)
    }

    /// A word or a string begins.
    pub open spec fn begin(self, mode: Mode, c: char) -> Scan {
        if self.at_node() {
            Scan { mode, last: Last::Name, shed: self.shed && self.last is NodeDash, ..self }
        } else {
            match self.last.begun() {
                Some(last) => Scan { mode, last, ..self },
                None => self.lost(c),
            }
        }
    }

    /// A line ends.
    pub open spec fn line_end(self, c: char) -> Scan {
        let here = Scan { mode: Mode::Code, ..self };
        if self.returned && c == '\n' {
            here
        } else if self.joined {
            Scan { joined: false, ..here }
        } else if !self.last.can_end() {
            self.lost(c)
        } else if self.last.is_dash() {
            here
        } else {
            Scan {
                last: Last::Start,
                shed: false,
                dashed: self.dashed && self.depth > 0,
                ..here
            }
        }
    }

    /// What follows outside of words, strings and comments. `tight` says that a word or a string
    /// ended just before.
    pub open spec fn code(self, c: char, tight: bool) -> Scan {
        let here = Scan { mode: Mode::Code, ..self };
        if is_newline(c) {
            self.line_end(c)
        } else if is_space(c) {
            here
        } else if c == '/' {
            Scan { mode: Mode::Slash(tight), ..self }
        } else if self.joined {
            self.lost(c)
        } else if c == '\\' {
            Scan { joined: true, ..here }
        } else if c == '=' {
            if self.last is Key {
                Scan { last: Last::Equals, ..here }
            } else {
                self.lost(c)
            }
        } else if c == ';' {
            if !self.shed && self.last.has_node() {
                Scan {
                    last: Last::Start,
                    shed: false,
                    dashed: self.dashed && self.depth > 0,
                    ..here
                }
            } else {
                self.lost(c)
            }
        } else if c == '{' {
            if self.last.has_node() || self.last is Dash {
                Scan { last: Last::Start, shed: false, depth: (self.depth + 1) as u32, ..here }
            } else {
                self.lost(c)
            }
        } else if c == '}' {
            if self.depth > 0 && (self.last.has_node() || self.last is Start) {
                Scan {
                    last: Last::Block,
                    shed: self.dashed,
                    depth: (self.depth - 1) as u32,
                    dashed: self.dashed && self.depth > 1,
                    ..here
                }
            } else {
                self.lost(c)
            }
        } else if c == ')' {
            if self.last is Named {
                Scan { last: Last::Type, held: 0, ..here }
            } else {
                self.lost(c)
            }
        } else if tight {
            self.lost(c)
        } else if c == '(' {
            if self.last is Equals || (self.last.can_end() && !(self.last is Block)) {
                Scan { last: Last::Open, ..here }
            } else {
                self.lost(c)
            }
        } else if c == '"' {
            self.begin(Mode::OneQuote, c)
        } else if c == '#' {
            Scan { hashes: 1, ..self }.begin(Mode::Hash, c)
        } else if is_word_char(c) {
            self.begin(Mode::Word(Word::first(c)), c)
        } else {
            self.lost(c)
        }
    }

    /// What follows a slash.
    pub open spec fn slash(self, c: char, tight: bool) -> Scan {
        let aside = self.last.can_end();
        if c == '*' {
            Scan { mode: Mode::Comment(None), nested: 1, pieces: 2, ..self }
        } else if c == '/' && aside {
            Scan { mode: Mode::LineComment, ..self }
        } else if c == '-' && aside && !tight && !self.joined && !self.last.is_dash() {
            Scan {
                mode: Mode::Code,
                last: if self.at_node() {
                    Last::NodeDash
                } else {
                    Last::Dash
                },
                dashed: true,
                shed: self.shed || self.at_node(),
                ..self
            }
        } else {
            Scan { fixed: (self.fixed + 32) as u32, ..self }.lost(c)
        }
    }

    /// What follows in a comment over any number of lines.
    pub open spec fn comment(self, c: char, before: Option<char>) -> Scan {
        if before == Some('*') && c == '/' {
            if self.nested <= 1 {
                Scan { mode: Mode::Code, nested: 0, pieces: 0, ..self }
            } else {
                Scan {
                    mode: Mode::Comment(None),
                    nested: (self.nested - 1) as u32,
                    pieces: (self.pieces + 1) as u32,
                    ..self
                }
            }
        } else if before == Some('/') && c == '*' {
            Scan {
                mode: Mode::Comment(None),
                nested: (self.nested + 1) as u32,
                pieces: (self.pieces + 1) as u32,
                ..self
            }
        } else if c == '*' || c == '/' {
            Scan { mode: Mode::Comment(Some(c)), pieces: (self.pieces + 1) as u32, ..self }
        } else {
            Scan { mode: Mode::Comment(None), ..self }
        }
    }

    /// What follows in a string. Within a type, and over several lines, its marks are held against
    /// it.
    pub open spec fn text(self, c: char) -> Scan {
        if c == '"' {
            Scan {
                mode: if self.lines {
                    Mode::InnerQuotes(1)
                } else {
                    Mode::Closed
                },
                ..self
            }
        } else if c == '\\' {
            Scan { mode: Mode::Escape, ..self }
        } else if is_newline(c) && self.lines {
            Scan { mode: Mode::Indent, indent: 0, ..self }
        } else if is_newline(c) || is_forbidden(c) {
            self.lost(c)
        } else if self.lines || self.last is Named {
            Scan { mode: Mode::Text, held: (self.held + mark_weight(c)) as u32, ..self }
        } else {
            Scan { mode: Mode::Text, ..self }
        }
    }

    /// What follows the white space at the start of a line of a string.
    pub open spec fn line_text(self, c: char) -> Scan {
        Scan {
            least: if self.indent < self.least {
                self.indent
            } else {
                self.least
            },
            ..self
        }.text(c)
    }

    /// What follows in the white space at the start of a line of a string.
    pub open spec fn indented(self, c: char) -> Scan {
        if c == ' ' && self.indent < MAX_INDENT {
            Scan { indent: (self.indent + 1) as u32, ..self }
        } else if is_newline(c) {
            if self.returned && c == '\n' {
                self
            } else {
                Scan { indent: 0, ..self }
            }
        } else if c == '"' {
            Scan { mode: Mode::EndQuotes(1), ..self }
        } else if is_space(c) {
            self.lost(c)
        } else {
            self.line_text(c)
        }
    }

    /// What follows quotes that may end a string over several lines. No line of it may be indented
    /// less than its end.
    pub open spec fn end_quotes(self, c: char, quotes: u32) -> Scan {
        if c != '"' {
            self.line_text(c)
        } else if quotes == 1 {
            Scan { mode: Mode::EndQuotes(2), ..self }
        } else if self.indent <= self.least {
            Scan {
                mode: Mode::Closed,
                lines: false,
                indent: 0,
                least: 0,
                held: if self.last is Named {
                    self.held
                } else {
                    0
                },
                ..self
            }
        } else {
            self.lost(c)
        }
    }

    /// What follows quotes elsewhere in a string over several lines.
    pub open spec fn inner_quotes(self, c: char, quotes: u32) -> Scan {
        if c != '"' {
            self.text(c)
        } else if quotes == 1 {
            Scan { mode: Mode::InnerQuotes(2), ..self }
        } else {
            self.lost(c)
        }
    }

    /// What follows a backslash in a string.
    pub open spec fn escape(self, c: char) -> Scan {
        if c == '\\' || c == '"' || c == 'b' || c == 'f' || c == 'n' || c == 'r' || c == 't' || c
            == 's' {
            Scan { mode: Mode::Text, ..self }
        } else if c == 'u' {
            Scan { mode: Mode::CodePoint, ..self }
        } else if is_space(c) || is_newline(c) {
            Scan { mode: Mode::Skipped, ..self }
        } else {
            self.lost(c)
        }
    }

    /// What follows in a code point.
    pub open spec fn hex_digits(self, c: char) -> Scan {
        match hex_value(c) {
            Some(value) if self.digits < 6 && self.code <= 0xf_ffff => Scan {
                code: (self.code * 16 + value) as u32,
                digits: (self.digits + 1) as u32,
                ..self
            },
            _ => if c == '}' && self.digits > 0 && (self.code < 0xd800 || 0xe000 <= self.code
                <= 0x10ffff) {
                Scan { mode: Mode::Text, code: 0, digits: 0, ..self }
            } else {
                self.lost(c)
            },
        }
    }

    /// What follows in a raw string. Its marks are held against it until it ends.
    pub open spec fn raw(self, c: char) -> Scan {
        if c == '"' {
            Scan { mode: Mode::RawEnd, ended: 0, ..self }
        } else if is_newline(c) || is_forbidden(c) {
            self.lost(c)
        } else {
            Scan { mode: Mode::Raw, held: (self.held + mark_weight(c)) as u32, ..self }
        }
    }

    /// What follows a quote in a raw string.
    pub open spec fn raw_end(self, c: char) -> Scan {
        if c == '#' {
            if self.ended + 1 < self.hashes {
                Scan { mode: Mode::RawEnd, ended: (self.ended + 1) as u32, ..self }
            } else {
                Scan {
                    mode: Mode::Closed,
                    hashes: 0,
                    ended: 0,
                    held: if self.last is Named {
                        self.held
                    } else {
                        0
                    },
                    ..self
                }
            }
        } else {
            self.raw(c)
        }
    }

    /// What follows a hash sign at the start of a word or a string.
    pub open spec fn hash(self, c: char) -> Scan {
        if c == '#' {
            Scan { hashes: (self.hashes + 1) as u32, ..self }
        } else if c == '"' {
            Scan { mode: Mode::RawQuote, ..self }
        } else if self.hashes == 1 && is_word_char(c) {
            Scan { mode: Mode::Word(Word::Other), hashes: 0, ..self }
        } else {
            self.lost(c)
        }
    }

    /// What follows in the mode that was reached.
    pub open spec fn followed(self, c: char) -> Scan {
        match self.mode {
            Mode::Code => self.code(c, false),
            Mode::Closed => self.code(c, true),
            Mode::Word(word) => if is_word_char(c) {
                Scan { mode: Mode::Word(word.longer(c)), ..self }
            } else if word.can_end() {
                self.code(c, true)
            } else {
                self.lost(c)
            },
            Mode::Slash(tight) => self.slash(c, tight),
            Mode::Hash => self.hash(c),
            Mode::LineComment => if is_newline(c) {
                self.line_end(c)
            } else {
                self
            },
            Mode::Comment(before) => self.comment(c, before),
            Mode::OneQuote => if c == '"' {
                Scan { mode: Mode::TwoQuotes, ..self }
            } else {
                self.text(c)
            },
            Mode::TwoQuotes => if c == '"' {
                Scan { mode: Mode::ThreeQuotes, ..self }
            } else {
                self.code(c, true)
            },
            Mode::ThreeQuotes => if is_newline(c) {
                Scan { mode: Mode::Indent, lines: true, indent: 0, least: MAX_INDENT, ..self }
            } else {
                self.lost(c)
            },
            Mode::Indent => self.indented(c),
            Mode::EndQuotes(quotes) => self.end_quotes(c, quotes),
            Mode::InnerQuotes(quotes) => self.inner_quotes(c, quotes),
            Mode::Text => self.text(c),
            Mode::Escape => self.escape(c),
            Mode::Skipped => if is_space(c) || is_newline(c) {
                self
            } else {
                self.text(c)
            },
            Mode::CodePoint => if c == '{' {
                Scan { mode: Mode::HexDigits, code: 0, digits: 0, ..self }
            } else {
                self.lost(c)
            },
            Mode::HexDigits => self.hex_digits(c),
            Mode::RawQuote => if c == '"' {
                Scan { mode: Mode::TwoRawQuotes, ended: 0, ..self }
            } else {
                self.raw(c)
            },
            Mode::TwoRawQuotes => if c == '"' {
                Scan { mode: Mode::ThreeRawQuotes, ..self }
            } else {
                self.raw_end(c)
            },
            Mode::ThreeRawQuotes => if c == '#' {
                self.lost(c)
            } else {
                self.raw(c)
            },
            Mode::Raw => self.raw(c),
            Mode::RawEnd => self.raw_end(c),
            Mode::Lost => self.lost(c),
        }
    }

    /// What has been read with one character more.
    #[verifier::opaque]
    pub open spec fn next(self, c: char) -> Scan {
        Scan { returned: c == '\r', ..self.followed(c) }
    }
}

/// How far a text has been read at its end.
pub open spec fn scanned(text: Seq<char>) -> Scan
    decreases text.len(),
{
    if text.len() == 0 {
        Scan::begun()
    } else {
        scanned(text.drop_last()).next(text.last())
    }
}

/// A text is light enough to be parsed: no place in it weighs too much, and it does not end within a
/// comment.
pub open spec fn is_light(text: Seq<char>) -> bool {
    &&& forall|n: int|
        0 <= n <= text.len() ==> #[trigger] scanned(text.take(n)).weight() <= MAX_WEIGHT
    &&& !(scanned(text).mode is Comment)
}

// ---------------------------------------------------------------------------
// Reading
// ---------------------------------------------------------------------------

fn ends_line(c: char) -> (it: bool)
    ensures
        it == is_newline(c),
{
    ('\u{a}' <= c && c <= '\u{d}')
        || c == '\u{85}'
        || ('\u{2028}' <= c && c <= '\u{2029}')
}

fn is_blank(c: char) -> (it: bool)
    ensures
        it == is_space(c),
{
    c == '\t'
        || c == ' '
        || c == '\u{a0}'
        || c == '\u{1680}'
        || ('\u{2000}' <= c && c <= '\u{200a}')
        || c == '\u{202f}'
        || c == '\u{205f}'
        || c == '\u{3000}'
}

fn is_refused(c: char) -> (it: bool)
    ensures
        it == is_forbidden(c),
{
    c <= '\u{8}'
        || ('\u{e}' <= c && c <= '\u{1f}')
        || ('\u{200e}' <= c && c <= '\u{200f}')
        || ('\u{202a}' <= c && c <= '\u{202e}')
        || ('\u{2066}' <= c && c <= '\u{2069}')
        || c == '\u{feff}'
}

fn is_sign(c: char) -> (it: bool)
    ensures
        it == is_mark(c),
{
    c == '\\'
        || c == '/'
        || c == '('
        || c == ')'
        || c == '{'
        || c == '}'
        || c == '['
        || c == ']'
        || c == ';'
        || c == '"'
        || c == '#'
        || c == '='
}

fn in_word(c: char) -> (it: bool)
    ensures
        it == is_word_char(c),
{
    !ends_line(c) && !is_blank(c) && !is_refused(c) && !is_sign(c)
}

fn hex_of(c: char) -> (it: Option<u32>)
    ensures
        it == hex_value(c),
{
    if '0' <= c && c <= '9' {
        Some(c as u32 - 48)
    } else if 'a' <= c && c <= 'f' {
        Some(c as u32 - 87)
    } else if 'A' <= c && c <= 'F' {
        Some(c as u32 - 55)
    } else {
        None
    }
}

fn weight_of(c: char) -> (it: u32)
    ensures
        it == mark_weight(c),
{
    if c == '{' {
        12
    } else if c == '/' {
        32
    } else if c == '*' {
        3
    } else {
        0
    }
}

impl Word {
    fn first_of(c: char) -> (it: Word)
        ensures
            it == Word::first(c),
    {
        if c == '+' || c == '-' {
            Word::Sign
        } else if c == '0' {
            Word::Zero
        } else if '1' <= c && c <= '9' {
            Word::Number
        } else {
            Word::Other
        }
    }

    fn number_of(c: char) -> (it: Word)
        ensures
            it == Word::number(c),
    {
        if c == '.' || c == 'e' || c == 'E' || c == '+' || c == '-' {
            Word::Unfinished
        } else {
            Word::Number
        }
    }

    fn grown(self, c: char) -> (it: Word)
        ensures
            it == self.longer(c),
    {
        match self {
            Word::Other => Word::Other,
            Word::Sign => if '0' <= c && c <= '9' {
                Word::first_of(c)
            } else {
                Word::Other
            },
            Word::Zero => if c == 'x' || c == 'X' {
                Word::HexPrefix
            } else if c == 'o' || c == 'O' || c == 'b' || c == 'B' {
                Word::Prefix
            } else {
                Word::number_of(c)
            },
            Word::HexPrefix | Word::Hex => Word::Hex,
            Word::Prefix | Word::Number | Word::Unfinished => Word::number_of(c),
        }
    }

    fn may_end(self) -> (it: bool)
        ensures
            it == self.can_end(),
    {
        !(self == Word::HexPrefix || self == Word::Prefix || self == Word::Unfinished)
    }
}

impl Last {
    fn beginning(self) -> (it: Option<Last>)
        ensures
            it == self.begun(),
    {
        match self {
            Last::Name | Last::Key | Last::Value | Last::Dash => Some(Last::Key),
            Last::Equals | Last::Type => Some(Last::Value),
            Last::Open => Some(Last::Named),
            _ => None,
        }
    }

    fn may_end(self) -> (it: bool)
        ensures
            it == self.can_end(),
    {
        self != Last::Equals && self != Last::Open && self != Last::Named && self != Last::Type
    }

    fn ends_node(self) -> (it: bool)
        ensures
            it == self.has_node(),
    {
        self == Last::Name || self == Last::Key || self == Last::Value || self == Last::Block
    }
}

impl Scan {
    fn lose(self, c: char) -> (it: Scan)
        requires
            self.fixed <= 2 * MAX_WEIGHT,
        ensures
            it == self.lost(c),
    {
        Scan { mode: Mode::Lost, fixed: self.fixed + weight_of(c), ..self }
    }

    fn is_at_node(self) -> (it: bool)
        ensures
            it == self.at_node(),
    {
        self.last == Last::Start || self.last == Last::NodeDash || (self.last == Last::Block
            && self.shed)
    }

    fn begin_at(self, mode: Mode, c: char) -> (it: Scan)
        requires
            self.fixed <= 2 * MAX_WEIGHT,
        ensures
            it == self.begin(mode, c),
    {
        if self.is_at_node() {
            Scan { mode, last: Last::Name, shed: self.shed && self.last == Last::NodeDash, ..self }
        } else {
            match self.last.beginning() {
                Some(last) => Scan { mode, last, ..self },
                None => self.lose(c),
            }
        }
    }

    fn end_line(self, c: char) -> (it: Scan)
        requires
            self.weight() <= MAX_WEIGHT,
        ensures
            it == self.line_end(c),
    {
        let here = Scan { mode: Mode::Code, ..self };
        if self.returned && c == '\n' {
            here
        } else if self.joined {
            Scan { joined: false, ..here }
        } else if !self.last.may_end() {
            self.lose(c)
        } else if self.last == Last::Dash || self.last == Last::NodeDash {
            here
        } else {
            Scan {
                last: Last::Start,
                shed: false,
                dashed: self.dashed && self.depth > 0,
                ..here
            }
        }
    }

    fn after_code(self, c: char, tight: bool) -> (it: Scan)
        requires
            self.weight() <= MAX_WEIGHT,
        ensures
            it == self.code(c, tight),
    {
        let here = Scan { mode: Mode::Code, ..self };
        if ends_line(c) {
            self.end_line(c)
        } else if is_blank(c) {
            here
        } else if c == '/' {
            Scan { mode: Mode::Slash(tight), ..self }
        } else if self.joined {
            self.lose(c)
        } else if c == '\\' {
            Scan { joined: true, ..here }
        } else if c == '=' {
            if self.last == Last::Key {
                Scan { last: Last::Equals, ..here }
            } else {
                self.lose(c)
            }
        } else if c == ';' {
            if !self.shed && self.last.ends_node() {
                Scan {
                    last: Last::Start,
                    shed: false,
                    dashed: self.dashed && self.depth > 0,
                    ..here
                }
            } else {
                self.lose(c)
            }
        } else if c == '{' {
            if self.last.ends_node() || self.last == Last::Dash {
                Scan { last: Last::Start, shed: false, depth: self.depth + 1, ..here }
            } else {
                self.lose(c)
            }
        } else if c == '}' {
            if self.depth > 0 && (self.last.ends_node() || self.last == Last::Start) {
                Scan {
                    last: Last::Block,
                    shed: self.dashed,
                    depth: self.depth - 1,
                    dashed: self.dashed && self.depth > 1,
                    ..here
                }
            } else {
                self.lose(c)
            }
        } else if c == ')' {
            if self.last == Last::Named {
                Scan { last: Last::Type, held: 0, ..here }
            } else {
                self.lose(c)
            }
        } else if tight {
            self.lose(c)
        } else if c == '(' {
            if self.last == Last::Equals || (self.last.may_end() && self.last != Last::Block) {
                Scan { last: Last::Open, ..here }
            } else {
                self.lose(c)
            }
        } else if c == '"' {
            self.begin_at(Mode::OneQuote, c)
        } else if c == '#' {
            Scan { hashes: 1, ..self }.begin_at(Mode::Hash, c)
        } else if in_word(c) {
            self.begin_at(Mode::Word(Word::first_of(c)), c)
        } else {
            self.lose(c)
        }
    }

    fn after_slash(self, c: char, tight: bool) -> (it: Scan)
        requires
            self.weight() <= MAX_WEIGHT,
        ensures
            it == self.slash(c, tight),
    {
        let aside = self.last.may_end();
        if c == '*' {
            Scan { mode: Mode::Comment(None), nested: 1, pieces: 2, ..self }
        } else if c == '/' && aside {
            Scan { mode: Mode::LineComment, ..self }
        } else if c == '-' && aside && !tight && !self.joined && self.last != Last::Dash && self.last
            != Last::NodeDash {
            Scan {
                mode: Mode::Code,
                last: if self.is_at_node() {
                    Last::NodeDash
                } else {
                    Last::Dash
                },
                dashed: true,
                shed: self.shed || self.is_at_node(),
                ..self
            }
        } else {
            Scan { fixed: self.fixed + 32, ..self }.lose(c)
        }
    }

    fn after_comment(self, c: char, before: Option<char>) -> (it: Scan)
        requires
            self.weight() <= MAX_WEIGHT,
        ensures
            it == self.comment(c, before),
    {
        if before == Some('*') && c == '/' {
            if self.nested <= 1 {
                Scan { mode: Mode::Code, nested: 0, pieces: 0, ..self }
            } else {
                Scan {
                    mode: Mode::Comment(None),
                    nested: self.nested - 1,
                    pieces: self.pieces + 1,
                    ..self
                }
            }
        } else if before == Some('/') && c == '*' {
            Scan {
                mode: Mode::Comment(None),
                nested: self.nested + 1,
                pieces: self.pieces + 1,
                ..self
            }
        } else if c == '*' || c == '/' {
            Scan { mode: Mode::Comment(Some(c)), pieces: self.pieces + 1, ..self }
        } else {
            Scan { mode: Mode::Comment(None), ..self }
        }
    }

    fn after_text(self, c: char) -> (it: Scan)
        requires
            self.weight() <= MAX_WEIGHT,
        ensures
            it == self.text(c),
    {
        if c == '"' {
            Scan {
                mode: if self.lines {
                    Mode::InnerQuotes(1)
                } else {
                    Mode::Closed
                },
                ..self
            }
        } else if c == '\\' {
            Scan { mode: Mode::Escape, ..self }
        } else if ends_line(c) && self.lines {
            Scan { mode: Mode::Indent, indent: 0, ..self }
        } else if ends_line(c) || is_refused(c) {
            self.lose(c)
        } else if self.lines || self.last == Last::Named {
            Scan { mode: Mode::Text, held: self.held + weight_of(c), ..self }
        } else {
            Scan { mode: Mode::Text, ..self }
        }
    }

    fn after_indent(self, c: char) -> (it: Scan)
        requires
            self.weight() <= MAX_WEIGHT,
        ensures
            it == self.line_text(c),
    {
        let least: u32 = if self.indent < self.least {
            self.indent
        } else {
            self.least
        };
        Scan { least, ..self }.after_text(c)
    }

    fn in_indent(self, c: char) -> (it: Scan)
        requires
            self.weight() <= MAX_WEIGHT,
        ensures
            it == self.indented(c),
    {
        if c == ' ' && self.indent < MAX_INDENT {
            Scan { indent: self.indent + 1, ..self }
        } else if ends_line(c) {
            if self.returned && c == '\n' {
                self
            } else {
                Scan { indent: 0, ..self }
            }
        } else if c == '"' {
            Scan { mode: Mode::EndQuotes(1), ..self }
        } else if is_blank(c) {
            self.lose(c)
        } else {
            self.after_indent(c)
        }
    }

    fn after_end_quotes(self, c: char, quotes: u32) -> (it: Scan)
        requires
            self.weight() <= MAX_WEIGHT,
        ensures
            it == self.end_quotes(c, quotes),
    {
        if c != '"' {
            self.after_indent(c)
        } else if quotes == 1 {
            Scan { mode: Mode::EndQuotes(2), ..self }
        } else if self.indent <= self.least {
            Scan {
                mode: Mode::Closed,
                lines: false,
                indent: 0,
                least: 0,
                held: if self.last == Last::Named {
                    self.held
                } else {
                    0
                },
                ..self
            }
        } else {
            self.lose(c)
        }
    }

    fn after_inner_quotes(self, c: char, quotes: u32) -> (it: Scan)
        requires
            self.weight() <= MAX_WEIGHT,
        ensures
            it == self.inner_quotes(c, quotes),
    {
        if c != '"' {
            self.after_text(c)
        } else if quotes == 1 {
            Scan { mode: Mode::InnerQuotes(2), ..self }
        } else {
            self.lose(c)
        }
    }

    fn after_escape(self, c: char) -> (it: Scan)
        requires
            self.weight() <= MAX_WEIGHT,
        ensures
            it == self.escape(c),
    {
        if c == '\\' || c == '"' || c == 'b' || c == 'f' || c == 'n' || c == 'r' || c == 't' || c
            == 's' {
            Scan { mode: Mode::Text, ..self }
        } else if c == 'u' {
            Scan { mode: Mode::CodePoint, ..self }
        } else if is_blank(c) || ends_line(c) {
            Scan { mode: Mode::Skipped, ..self }
        } else {
            self.lose(c)
        }
    }

    fn after_digit(self, c: char) -> (it: Scan)
        requires
            self.weight() <= MAX_WEIGHT,
        ensures
            it == self.hex_digits(c),
    {
        match hex_of(c) {
            Some(value) if self.digits < 6 && self.code <= 0xf_ffff => Scan {
                code: self.code * 16 + value,
                digits: self.digits + 1,
                ..self
            },
            _ => if c == '}' && self.digits > 0 && (self.code < 0xd800 || (0xe000 <= self.code
                && self.code <= 0x10ffff)) {
                Scan { mode: Mode::Text, code: 0, digits: 0, ..self }
            } else {
                self.lose(c)
            },
        }
    }

    fn after_raw(self, c: char) -> (it: Scan)
        requires
            self.weight() <= MAX_WEIGHT,
        ensures
            it == self.raw(c),
    {
        if c == '"' {
            Scan { mode: Mode::RawEnd, ended: 0, ..self }
        } else if ends_line(c) || is_refused(c) {
            self.lose(c)
        } else {
            Scan { mode: Mode::Raw, held: self.held + weight_of(c), ..self }
        }
    }

    fn after_raw_quote(self, c: char) -> (it: Scan)
        requires
            self.weight() <= MAX_WEIGHT,
        ensures
            it == self.raw_end(c),
    {
        if c == '#' {
            if self.ended + 1 < self.hashes {
                Scan { mode: Mode::RawEnd, ended: self.ended + 1, ..self }
            } else {
                Scan {
                    mode: Mode::Closed,
                    hashes: 0,
                    ended: 0,
                    held: if self.last == Last::Named {
                        self.held
                    } else {
                        0
                    },
                    ..self
                }
            }
        } else {
            self.after_raw(c)
        }
    }

    fn after_hash(self, c: char) -> (it: Scan)
        requires
            self.weight() <= MAX_WEIGHT,
        ensures
            it == self.hash(c),
    {
        if c == '#' {
            Scan { hashes: self.hashes + 1, ..self }
        } else if c == '"' {
            Scan { mode: Mode::RawQuote, ..self }
        } else if self.hashes == 1 && in_word(c) {
            Scan { mode: Mode::Word(Word::Other), hashes: 0, ..self }
        } else {
            self.lose(c)
        }
    }

    fn follow(self, c: char) -> (it: Scan)
        requires
            self.weight() <= MAX_WEIGHT,
        ensures
            it == self.followed(c),
    {
        match self.mode {
            Mode::Code => self.after_code(c, false),
            Mode::Closed => self.after_code(c, true),
            Mode::Word(word) => if in_word(c) {
                Scan { mode: Mode::Word(word.grown(c)), ..self }
            } else if word.may_end() {
                self.after_code(c, true)
            } else {
                self.lose(c)
            },
            Mode::Slash(tight) => self.after_slash(c, tight),
            Mode::Hash => self.after_hash(c),
            Mode::LineComment => if ends_line(c) {
                self.end_line(c)
            } else {
                self
            },
            Mode::Comment(before) => self.after_comment(c, before),
            Mode::OneQuote => if c == '"' {
                Scan { mode: Mode::TwoQuotes, ..self }
            } else {
                self.after_text(c)
            },
            Mode::TwoQuotes => if c == '"' {
                Scan { mode: Mode::ThreeQuotes, ..self }
            } else {
                self.after_code(c, true)
            },
            Mode::ThreeQuotes => if ends_line(c) {
                Scan { mode: Mode::Indent, lines: true, indent: 0, least: MAX_INDENT, ..self }
            } else {
                self.lose(c)
            },
            Mode::Indent => self.in_indent(c),
            Mode::EndQuotes(quotes) => self.after_end_quotes(c, quotes),
            Mode::InnerQuotes(quotes) => self.after_inner_quotes(c, quotes),
            Mode::Text => self.after_text(c),
            Mode::Escape => self.after_escape(c),
            Mode::Skipped => if is_blank(c) || ends_line(c) {
                self
            } else {
                self.after_text(c)
            },
            Mode::CodePoint => if c == '{' {
                Scan { mode: Mode::HexDigits, code: 0, digits: 0, ..self }
            } else {
                self.lose(c)
            },
            Mode::HexDigits => self.after_digit(c),
            Mode::RawQuote => if c == '"' {
                Scan { mode: Mode::TwoRawQuotes, ended: 0, ..self }
            } else {
                self.after_raw(c)
            },
            Mode::TwoRawQuotes => if c == '"' {
                Scan { mode: Mode::ThreeRawQuotes, ..self }
            } else {
                self.after_raw_quote(c)
            },
            Mode::ThreeRawQuotes => if c == '#' {
                self.lose(c)
            } else {
                self.after_raw(c)
            },
            Mode::Raw => self.after_raw(c),
            Mode::RawEnd => self.after_raw_quote(c),
            Mode::Lost => self.lose(c),
        }
    }

    fn too_heavy(self) -> (it: bool)
        ensures
            it == (self.weight() > MAX_WEIGHT),
    {
        let depth: u64 = if self.dashed {
            128 * self.depth as u64
        } else {
            12 * self.depth as u64
        };
        let weight: u64 = self.fixed as u64 + self.held as u64 + 3 * self.pieces as u64
            + self.nested as u64 + self.hashes as u64 + self.ended as u64 + depth;
        weight > MAX_WEIGHT as u64
    }

    fn step(self, c: char) -> (it: Scan)
        requires
            self.weight() <= MAX_WEIGHT,
        ensures
            it == self.next(c),
    {
        proof {
            reveal(Scan::next);
        }
        Scan { returned: c == '\r', ..self.follow(c) }
    }
}

/// Whether a text is light enough to be parsed.
pub fn light_enough(text: &str) -> (yes: bool)
    ensures
        yes == is_light(text@),
{
    let chars = chars_of(text);
    let mut scan = Scan {
        mode: Mode::Code,
        last: Last::Start,
        joined: false,
        returned: false,
        depth: 0,
        dashed: false,
        shed: false,
        nested: 0,
        pieces: 0,
        lines: false,
        indent: 0,
        least: 0,
        hashes: 0,
        ended: 0,
        code: 0,
        digits: 0,
        held: 0,
        fixed: 0,
    };
    proof {
        assert(text@.take(0) == Seq::<char>::empty());
    }
    for i in 0..chars.len()
        invariant
            chars@ == text@,
            scan == scanned(text@.take(i as int)),
            scan.weight() <= MAX_WEIGHT,
            forall|n: int|
                0 <= n <= i ==> #[trigger] scanned(text@.take(n)).weight() <= MAX_WEIGHT,
    {
        let next = scan.step(chars[i]);
        proof {
            assert(text@.take(i as int + 1).drop_last() == text@.take(i as int));
            assert(text@.take(i as int + 1).last() == chars[i as int]);
            assert(next == scanned(text@.take(i as int + 1)));
        }
        if next.too_heavy() {
            return false;
        }
        scan = next;
    }
    assert(text@.take(chars@.len() as int) == text@);
    match scan.mode {
        Mode::Comment(_) => false,
        _ => true,
    }
}

// ---------------------------------------------------------------------------
// Laws
// ---------------------------------------------------------------------------

proof fn lemma_scanned_after(a: Seq<char>, b: Seq<char>)
    requires
        scanned(a) == Scan::begun(),
    ensures
        scanned(a + b) == scanned(b),
    decreases b.len(),
{
    if b.len() == 0 {
        assert(a + b == a);
    } else {
        assert((a + b).drop_last() == a + b.drop_last());
        lemma_scanned_after(a, b.drop_last());
    }
}

/// A text does not get heavier the longer it is: where everything that was begun has ended, what
/// follows weighs as much as it would alone.
pub proof fn law_weight_does_not_add_up(a: Seq<char>, b: Seq<char>)
    requires
        scanned(a) == Scan::begun(),
    ensures
        scanned(a + b) == scanned(b),
        is_light(a + b) <==> is_light(a) && is_light(b),
{
    let whole = a + b;
    lemma_scanned_after(a, b);
    assert forall|n: int| 0 <= n <= a.len() implies #[trigger] whole.take(n) == a.take(n) by {}
    assert forall|n: int| 0 <= n <= b.len() implies scanned(#[trigger] b.take(n)) == scanned(
        whole.take(a.len() + n),
    ) by {
        assert(whole.take(a.len() + n) == a + b.take(n));
        lemma_scanned_after(a, b.take(n));
    }
    if is_light(a) && is_light(b) {
        assert forall|n: int| 0 <= n <= whole.len() implies #[trigger] scanned(
            whole.take(n),
        ).weight() <= MAX_WEIGHT by {
            if n <= a.len() {
                assert(whole.take(n) == a.take(n));
                assert(scanned(a.take(n)).weight() <= MAX_WEIGHT);
            } else {
                let m = n - a.len();
                assert(scanned(b.take(m)) == scanned(whole.take(a.len() + m)));
                assert(scanned(b.take(m)).weight() <= MAX_WEIGHT);
            }
        }
    }
    if is_light(whole) {
        assert forall|n: int| 0 <= n <= a.len() implies #[trigger] scanned(a.take(n)).weight()
            <= MAX_WEIGHT by {
            assert(whole.take(n) == a.take(n));
            assert(scanned(whole.take(n)).weight() <= MAX_WEIGHT);
        }
        assert forall|n: int| 0 <= n <= b.len() implies #[trigger] scanned(b.take(n)).weight()
            <= MAX_WEIGHT by {
            assert(scanned(whole.take(a.len() + n)).weight() <= MAX_WEIGHT);
        }
    }
}

}
