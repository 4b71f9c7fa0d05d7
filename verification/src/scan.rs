//! What the tokenizer does, as functions on an abstract scanner state.

use crate::annot::Loc;
use crate::text::parse_i64_spec;
use crate::token::{Punct, Reserved, TokenKindView, TokenView};
use vstd::prelude::*;

verus! {

/// Why the tokenizer gives up.
#[derive(Debug, Clone, Copy, PartialEq, Eq, Structural)]
pub enum Error {
    EOF,
    UnexpectedChar,
    NotMatchPunctuation,
    ForbiddenTab,
}

/// Whether `c` is a numeric character of Unicode.
pub uninterp spec fn is_numeric(c: char) -> bool;

/// `char::is_numeric`: whether the character is numeric, which depends on
/// the character alone.
#[verifier::external_body]
pub(crate) fn char_is_numeric(c: char) -> (r: bool)
    ensures
        r == is_numeric(c),
{
    c.is_numeric()
}

pub open spec fn is_upper(c: char) -> bool {
    0x41 <= c as u32 <= 0x5a
}

pub open spec fn is_alphabetic(c: char) -> bool {
    is_upper(c) || 0x61 <= c as u32 <= 0x7a
}

pub open spec fn is_alphanumeric(c: char) -> bool {
    is_alphabetic(c) || 0x30 <= c as u32 <= 0x39
}

pub open spec fn is_punctuation(c: char) -> bool {
    33 <= c as u32 <= 47 || 58 <= c as u32 <= 64 || 91 <= c as u32 <= 96 || 123 <= c as u32 <= 126
}

pub open spec fn is_whitespace(c: char) -> bool {
    c == ' ' || c == '\t' || c == '\n' || c == '\x0c' || c == '\r'
}

/// The reserved words, in the order in which they are numbered.
pub open spec fn reserved_words() -> Seq<(Seq<char>, Reserved)> {
    seq![
        ("BEGIN"@, Reserved::BEGIN),
        ("END"@, Reserved::END),
        ("alias"@, Reserved::Alias),
        ("begin"@, Reserved::Begin),
        ("break"@, Reserved::Break),
        ("case"@, Reserved::Case),
        ("class"@, Reserved::Class),
        ("def"@, Reserved::Def),
        ("defined?"@, Reserved::Defined),
        ("do"@, Reserved::Do),
        ("else"@, Reserved::Else),
        ("elsif"@, Reserved::Elsif),
        ("end"@, Reserved::End),
        ("false"@, Reserved::False),
        ("if"@, Reserved::If),
        ("return"@, Reserved::Return),
        ("then"@, Reserved::Then),
        ("true"@, Reserved::True),
    ]
}

/// The reserved word that `name` is, if it is one: the last of the list
/// with that spelling among the first `n`.
pub open spec fn reserved_among(name: Seq<char>, n: nat) -> Option<Reserved>
    decreases n,
{
    if n == 0 || n > reserved_words().len() {
        None
    } else if reserved_words()[n - 1].0 == name {
        Some(reserved_words()[n - 1].1)
    } else {
        reserved_among(name, (n - 1) as nat)
    }
}

/// The reserved word that `name` is, if it is one.
pub open spec fn reserved_word(name: Seq<char>) -> Option<Reserved> {
    reserved_among(name, reserved_words().len())
}

/// The punctuation that a single character is, whatever follows it.
pub open spec fn simple_punct(c: char) -> Option<Punct> {
    if c == '+' {
        Some(Punct::Plus)
    } else if c == '-' {
        Some(Punct::Minus)
    } else if c == '*' {
        Some(Punct::Mul)
    } else if c == '/' {
        Some(Punct::Div)
    } else if c == '(' {
        Some(Punct::LParen)
    } else if c == ')' {
        Some(Punct::RParen)
    } else if c == '[' {
        Some(Punct::LBoxBrackets)
    } else if c == ']' {
        Some(Punct::RBoxBrackets)
    } else if c == ';' {
        Some(Punct::Semi)
    } else if c == ':' {
        Some(Punct::Colon)
    } else if c == ',' {
        Some(Punct::Comma)
    } else if c == '.' {
        Some(Punct::Dot)
    } else if c == '|' {
        Some(Punct::Pipe)
    } else {
        None
    }
}

/// For a character that starts a punctuation of one or two characters: the
/// second character, the punctuation of both, and the punctuation of the
/// first alone, if it can stand alone.
pub open spec fn double_punct(c: char) -> Option<(char, Punct, Option<Punct>)> {
    if c == '=' {
        Some(('=', Punct::Eq, Some(Punct::Assign)))
    } else if c == '>' {
        Some(('=', Punct::GE, Some(Punct::GT)))
    } else if c == '<' {
        Some(('=', Punct::LE, Some(Punct::LT)))
    } else if c == '&' {
        Some(('&', Punct::LAnd, Some(Punct::And)))
    } else if c == '@' {
        Some(('@', Punct::AtAt, Some(Punct::At)))
    } else if c == '!' {
        Some(('=', Punct::NE, None))
    } else {
        None
    }
}

/// The character that an escape stands for.
pub open spec fn escaped(c: char) -> char {
    if c == 'a' {
        '\x07'
    } else if c == 'b' {
        '\x08'
    } else if c == 'f' {
        '\x0c'
    } else if c == 'n' {
        '\x0a'
    } else if c == 'r' {
        '\x0d'
    } else if c == 't' {
        '\x09'
    } else if c == 'v' {
        '\x0b'
    } else {
        c
    }
}

/// The state of the tokenizer: the text read so far, the lines found in
/// it, and where the tokenizer stands.
pub struct Scanner {
    pub code: Seq<char>,
    /// For each line that has ended: where it starts, where it ends, and
    /// its number.
    pub coordinates: Seq<(usize, usize, usize)>,
    pub line_start_pos: nat,
    pub token_start_pos: nat,
    pub absolute_column_pos: nat,
    pub relative_column_pos: nat,
    pub line_pos: nat,
}

pub type Scanned<T> = Result<(Scanner, T), Error>;

impl Scanner {
    /// The positions are in order and within the text.
    pub open spec fn wf(self) -> bool {
        &&& self.code.len() <= usize::MAX
        &&& self.absolute_column_pos <= self.code.len()
        &&& self.relative_column_pos <= self.absolute_column_pos
        &&& self.line_pos <= self.absolute_column_pos
        &&& self.line_start_pos <= self.absolute_column_pos
        &&& self.token_start_pos <= self.absolute_column_pos
        &&& forall|i: int|
            0 <= i < self.coordinates.len() ==> (#[trigger] self.coordinates[i]).2 <= self.code.len()
    }

    /// The character under the cursor.
    pub open spec fn peek(self) -> Result<char, Error> {
        if self.absolute_column_pos >= self.code.len() {
            Err(Error::EOF)
        } else {
            Ok(self.code[self.absolute_column_pos as int])
        }
    }

    /// The state in which the current line has ended at the cursor.
    pub open spec fn end_line(self) -> Scanner {
        Scanner {
            coordinates: self.coordinates.push(
                (
                    self.line_start_pos as usize,
                    self.absolute_column_pos as usize,
                    self.line_pos as usize,
                ),
            ),
            line_pos: self.line_pos + 1,
            line_start_pos: self.absolute_column_pos + 1,
            relative_column_pos: 0,
            ..self
        }
    }

    /// Takes the character under the cursor. A line break ends the line.
    pub open spec fn get(self) -> Scanned<char> {
        if self.absolute_column_pos >= self.code.len() {
            Err(Error::EOF)
        } else {
            let ch = self.code[self.absolute_column_pos as int];
            let s = if ch == '\n' {
                self.end_line()
            } else {
                self
            };
            Ok(
                (
                    Scanner {
                        absolute_column_pos: self.absolute_column_pos + 1,
                        relative_column_pos: s.relative_column_pos + 1,
                        ..s
                    },
                    ch,
                ),
            )
        }
    }

    /// The span of the token that ends before the cursor.
    pub open spec fn cur_loc(self) -> Loc {
        Loc(self.token_start_pos as usize, (self.absolute_column_pos - 1) as usize)
    }

    /// The line break under the cursor, as a token.
    pub open spec fn read_eol(self) -> (Scanner, TokenView) {
        (
            Scanner { absolute_column_pos: self.absolute_column_pos + 1, ..self.end_line() },
            (
                TokenKindView::Line,
                Loc(self.absolute_column_pos as usize, self.absolute_column_pos as usize),
            ),
        )
    }

    /// The position of the first character from the cursor on that is no
    /// space.
    pub open spec fn spaces_end(self) -> nat
        decreases self.code.len() - self.absolute_column_pos,
    {
        if self.absolute_column_pos < self.code.len() && self.code[self.absolute_column_pos as int]
            == ' ' {
            Scanner { absolute_column_pos: self.absolute_column_pos + 1, ..self }.spaces_end()
        } else {
            self.absolute_column_pos
        }
    }

    /// The spaces from the cursor on, as one token. There must be one.
    pub open spec fn read_space(self) -> Scanned<TokenView> {
        let end = self.spaces_end();
        if end == self.absolute_column_pos {
            Err(Error::UnexpectedChar)
        } else {
            Ok(
                (
                    Scanner {
                        token_start_pos: self.absolute_column_pos,
                        absolute_column_pos: end,
                        relative_column_pos: (self.relative_column_pos + end
                            - self.absolute_column_pos) as nat,
                        ..self
                    },
                    (
                        TokenKindView::Space,
                        Loc(self.absolute_column_pos as usize, (end - 1) as usize),
                    ),
                ),
            )
        }
    }

    /// Looks from the position `p` on for the next character that is no
    /// other white space: a line break or a run of spaces becomes a token, a
    /// tab is refused, and at anything else the cursor stops.
    pub open spec fn skip_whitespace_from(self, p: nat) -> Scanned<Option<TokenView>>
        decreases self.code.len() - p,
    {
        if p >= self.code.len() {
            Ok((Scanner { absolute_column_pos: self.code.len(), ..self }, None))
        } else {
            let ch = self.code[p as int];
            if ch == '\n' {
                Ok((self.read_eol().0, Some(self.read_eol().1)))
            } else if ch == '\t' {
                Err(Error::ForbiddenTab)
            } else if ch == ' ' {
                match self.read_space() {
                    Err(e) => Err(e),
                    Ok((s, t)) => Ok((s, Some(t))),
                }
            } else if !is_whitespace(ch) {
                Ok((Scanner { absolute_column_pos: p, ..self }, None))
            } else {
                self.skip_whitespace_from(p + 1)
            }
        }
    }

    /// The white space at the cursor, if any, as a token.
    pub open spec fn skip_whitespace(self) -> Scanned<Option<TokenView>> {
        self.skip_whitespace_from(self.absolute_column_pos)
    }

    /// The rest of a number: digits are collected, and `_` between them is
    /// dropped.
    pub open spec fn number_rest(self, acc: Seq<char>) -> (Scanner, Seq<char>)
        decreases self.code.len() - self.absolute_column_pos,
    {
        match self.get() {
            Err(_) => (self, acc),
            Ok((s, ch)) => if is_numeric(ch) {
                s.number_rest(acc.push(ch))
            } else if ch == '_' {
                s.number_rest(acc)
            } else {
                (self, acc)
            },
        }
    }

    /// A number literal that starts with `ch`, which has been taken.
    pub open spec fn read_number_literal(self, ch: char) -> Scanned<TokenView> {
        let (s, digits) = self.number_rest(seq![ch]);
        match parse_i64_spec(digits) {
            Some(n) => Ok((s, (TokenKindView::NumLit(n), s.cur_loc()))),
            None => Err(Error::UnexpectedChar),
        }
    }

    /// The rest of a word: letters, digits and `_`.
    pub open spec fn word_rest(self, acc: Seq<char>) -> (Scanner, Seq<char>)
        decreases self.code.len() - self.absolute_column_pos,
    {
        match self.get() {
            Err(_) => (self, acc),
            Ok((s, ch)) => if is_alphanumeric(ch) || ch == '_' {
                s.word_rest(acc.push(ch))
            } else {
                (self, acc)
            },
        }
    }

    /// A word that starts with `ch`, which has been taken: a reserved word,
    /// a constant where it starts with a capital letter, or an identifier.
    pub open spec fn read_ascii_alphabetic(self, ch: char) -> (Scanner, TokenView) {
        let (s, word) = self.word_rest(seq![ch]);
        (
            s,
            (
                match reserved_word(word) {
                    Some(r) => TokenKindView::Reserved(r),
                    None => if is_upper(ch) {
                        TokenKindView::Const(word)
                    } else {
                        TokenKindView::Ident(word)
                    },
                },
                s.cur_loc(),
            ),
        )
    }

    /// The punctuation that starts with `ch`, which has been taken.
    pub open spec fn read_ascii_punct(self, ch: char) -> Scanned<TokenView> {
        match simple_punct(ch) {
            Some(p) => Ok((self, (TokenKindView::Punct(p), self.cur_loc()))),
            None => match double_punct(ch) {
                None => Err(Error::NotMatchPunctuation),
                Some((next, both, alone)) => match self.peek() {
                    Err(e) => Err(e),
                    Ok(c) => if c == next {
                        let s = self.get()->Ok_0.0;
                        Ok((s, (TokenKindView::Punct(both), s.cur_loc())))
                    } else {
                        match alone {
                            Some(p) => Ok((self, (TokenKindView::Punct(p), self.cur_loc()))),
                            None => Err(Error::NotMatchPunctuation),
                        }
                    },
                },
            },
        }
    }

    /// Takes the characters up to and including the next line break, or up
    /// to the end of the text; says whether it found a line break.
    pub open spec fn goto_eol(self) -> (Scanner, bool)
        decreases self.code.len() - self.absolute_column_pos,
    {
        match self.get() {
            Err(_) => (self, false),
            Ok((s, ch)) => if ch == '\n' {
                (s, true)
            } else {
                s.goto_eol()
            },
        }
    }

    /// A comment, whose `#` has been taken: it reaches to the end of the
    /// line.
    pub open spec fn read_comment(self) -> Scanned<TokenView> {
        if self.absolute_column_pos == 0 {
            Err(Error::UnexpectedChar)
        } else {
            let start = (self.absolute_column_pos - 1) as nat;
            let (s, found) = self.goto_eol();
            let s1 = Scanner { token_start_pos: start, ..s };
            if found {
                if s.coordinates.len() == 0 || s.line_start_pos < s.coordinates.last().0 + 2 {
                    Err(Error::UnexpectedChar)
                } else {
                    Ok(
                        (
                            s1,
                            (
                                TokenKindView::Punct(Punct::Comment),
                                Loc(
                                    start as usize,
                                    (s.line_start_pos - s.coordinates.last().0 - 2) as usize,
                                ),
                            ),
                        ),
                    )
                }
            } else {
                Ok(
                    (
                        s1,
                        (
                            TokenKindView::Punct(Punct::Comment),
                            Loc(start as usize, (s.absolute_column_pos - 1) as usize),
                        ),
                    ),
                )
            }
        }
    }

    /// The rest of a string literal in single quotes.
    pub open spec fn single_rest(self, acc: Seq<char>) -> Scanned<Seq<char>>
        decreases self.code.len() - self.absolute_column_pos,
    {
        match self.get() {
            Err(e) => Err(e),
            Ok((s, ch)) => if ch == '\'' {
                Ok((s, acc))
            } else {
                s.single_rest(acc.push(ch))
            },
        }
    }

    /// The rest of a string literal in double quotes, in which `\` makes
    /// an escape of the character that follows it.
    pub open spec fn double_rest(self, acc: Seq<char>) -> Scanned<Seq<char>>
        decreases self.code.len() - self.absolute_column_pos,
    {
        match self.get() {
            Err(e) => Err(e),
            Ok((s, ch)) => if ch == '"' {
                Ok((s, acc))
            } else if ch == '\\' {
                match s.get() {
                    Err(e) => Err(e),
                    Ok((s1, c)) => s1.double_rest(acc.push(escaped(c))),
                }
            } else {
                s.double_rest(acc.push(ch))
            },
        }
    }

    /// The token that starts with `ch`, which has been taken.
    pub open spec fn read_token(self, ch: char) -> Scanned<TokenView> {
        if is_alphabetic(ch) || ch == '_' {
            Ok(self.read_ascii_alphabetic(ch))
        } else if is_numeric(ch) {
            self.read_number_literal(ch)
        } else if is_punctuation(ch) {
            if ch == '#' {
                self.read_comment()
            } else if ch == '\'' {
                match self.single_rest(Seq::empty()) {
                    Err(e) => Err(e),
                    Ok((s, text)) => Ok((s, (TokenKindView::StringLit(text), s.cur_loc()))),
                }
            } else if ch == '"' {
                match self.double_rest(Seq::empty()) {
                    Err(e) => Err(e),
                    Ok((s, text)) => Ok((s, (TokenKindView::StringLit(text), s.cur_loc()))),
                }
            } else {
                self.read_ascii_punct(ch)
            }
        } else {
            Err(Error::UnexpectedChar)
        }
    }

    /// The state at the end of the text: the last line has ended.
    pub open spec fn finish(self) -> Scanner {
        Scanner {
            coordinates: self.coordinates.push(
                (self.line_start_pos as usize, self.code.len() as usize, self.line_pos as usize),
            ),
            ..self
        }
    }

    /// The tokens from the cursor on, after `acc`. Each round yields a
    /// token; `rounds` bounds their number.
    pub open spec fn scan(self, acc: Seq<TokenView>, rounds: nat) -> Scanned<Seq<TokenView>>
        decreases rounds,
    {
        if rounds == 0 {
            Err(Error::UnexpectedChar)
        } else {
            match self.skip_whitespace() {
                Err(e) => Err(e),
                Ok((s, Some(t))) => s.scan(acc.push(t), (rounds - 1) as nat),
                Ok((s, None)) => {
                    let s1 = Scanner { token_start_pos: s.absolute_column_pos, ..s };
                    match s1.get() {
                        Err(_) => Ok(
                            (
                                s1.finish(),
                                acc.push(
                                    (
                                        TokenKindView::EOF,
                                        Loc(
                                            s1.token_start_pos as usize,
                                            s1.token_start_pos as usize,
                                        ),
                                    ),
                                ),
                            ),
                        ),
                        Ok((s2, ch)) => match s2.read_token(ch) {
                            Err(e) => Err(e),
                            Ok((s3, t)) => s3.scan(acc.push(t), (rounds - 1) as nat),
                        },
                    }
                },
            }
        }
    }

    /// The state in which `text` has been added to the text read so far,
    /// with the cursor at its start. The line that was the last before is
    /// open again.
    pub open spec fn resume(self, text: Seq<char>) -> Scanner {
        if self.coordinates.len() == 0 {
            Scanner { code: self.code + text, ..self }
        } else {
            Scanner {
                code: self.code + text,
                coordinates: self.coordinates.drop_last(),
                line_start_pos: self.code.len(),
                token_start_pos: self.code.len(),
                relative_column_pos: self.code.len(),
                absolute_column_pos: self.code.len(),
                line_pos: self.coordinates.last().2 as nat,
            }
        }
    }

    /// The tokens of `text`, which is added to the text read so far.
    pub open spec fn tokenize(self, text: Seq<char>) -> Scanned<Seq<TokenView>> {
        self.resume(text).scan(Seq::empty(), (self.code.len() + text.len() + 1) as nat)
    }
}

} // verus!
