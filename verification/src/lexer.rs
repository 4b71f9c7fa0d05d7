//! The tokenizer.

use crate::annot::Loc;
use crate::fxmap::{fx_names_clone, fx_names_get, fx_names_insert, fx_names_new, name_index};
use crate::scan::{
    char_is_numeric, double_punct, escaped, is_alphabetic, is_alphanumeric, is_numeric,
    is_punctuation, is_upper, is_whitespace, reserved_among, reserved_words, simple_punct, Error,
    Scanned, Scanner,
};
use crate::text::{parse_i64, string_from_chars};
use crate::token::{tokens_view, Punct, Reserved, Token, TokenKindView, TokenView};
use crate::util::SourceInfo;
use rustc_hash::FxHashMap;
use vstd::prelude::*;
use vstd::std_specs::iter::IteratorSpec;

verus! {

/// The characters of the string, in order.
pub(crate) fn chars_of(s: &str) -> (r: Vec<char>)
    ensures
        r@ == s@,
{
    let mut rest = s.chars();
    let mut taken: Vec<char> = Vec::new();
    loop
        invariant_except_break
            taken@ + rest.remaining() == s@,
        ensures
            taken@ == s@,
        decreases s@.len() - taken@.len(),
    {
        let ghost before = rest.remaining();
        let ghost had = taken@;
        match rest.next() {
            Some(c) => {
                taken.push(c);
                assert(taken@ + rest.remaining() =~= had + before) by {
                    assert(before =~= seq![c] + before.drop_first());
                }
            },
            None => {
                assert(taken@ + before =~= taken@);
                break;
            },
        }
    }
    taken
}

/// The numbers of the first `n` reserved words, by their spelling.
pub open spec fn words_index(n: nat) -> Map<Seq<char>, usize>
    decreases n,
{
    if n == 0 || n > reserved_words().len() {
        Map::empty()
    } else {
        words_index((n - 1) as nat).insert(reserved_words()[n - 1].0, (n - 1) as usize)
    }
}

/// The numbered words and the list of words agree: a spelling has a
/// number exactly if it is a reserved word, and the number is that of the
/// word.
pub proof fn lemma_words_index(name: Seq<char>, n: nat)
    requires
        n <= reserved_words().len(),
    ensures
        words_index(n).contains_key(name) == reserved_among(name, n) is Some,
        words_index(n).contains_key(name) ==> words_index(n)[name] < n && reserved_among(name, n)
            == Some(reserved_words()[words_index(n)[name] as int].1),
    decreases n,
{
    if n > 0 {
        lemma_words_index(name, (n - 1) as nat);
    }
}

/// The reserved word with the number `i`.
pub fn reserved_by_number(i: usize) -> (r: Reserved)
    requires
        i < reserved_words().len(),
    ensures
        r == reserved_words()[i as int].1,
{
    if i == 0 {
        Reserved::BEGIN
    } else if i == 1 {
        Reserved::END
    } else if i == 2 {
        Reserved::Alias
    } else if i == 3 {
        Reserved::Begin
    } else if i == 4 {
        Reserved::Break
    } else if i == 5 {
        Reserved::Case
    } else if i == 6 {
        Reserved::Class
    } else if i == 7 {
        Reserved::Def
    } else if i == 8 {
        Reserved::Defined
    } else if i == 9 {
        Reserved::Do
    } else if i == 10 {
        Reserved::Else
    } else if i == 11 {
        Reserved::Elsif
    } else if i == 12 {
        Reserved::End
    } else if i == 13 {
        Reserved::False
    } else if i == 14 {
        Reserved::If
    } else if i == 15 {
        Reserved::Return
    } else if i == 16 {
        Reserved::Then
    } else {
        Reserved::True
    }
}

pub fn ascii_upper(c: char) -> (r: bool)
    ensures
        r == is_upper(c),
{
    let n: u32 = c as u32;
    0x41 <= n && n <= 0x5a
}

pub fn ascii_alphabetic(c: char) -> (r: bool)
    ensures
        r == is_alphabetic(c),
{
    let n: u32 = c as u32;
    (0x41 <= n && n <= 0x5a) || (0x61 <= n && n <= 0x7a)
}

pub fn ascii_alphanumeric(c: char) -> (r: bool)
    ensures
        r == is_alphanumeric(c),
{
    let n: u32 = c as u32;
    (0x41 <= n && n <= 0x5a) || (0x61 <= n && n <= 0x7a) || (0x30 <= n && n <= 0x39)
}

pub fn ascii_punctuation(c: char) -> (r: bool)
    ensures
        r == is_punctuation(c),
{
    let n: u32 = c as u32;
    (33 <= n && n <= 47) || (58 <= n && n <= 64) || (91 <= n && n <= 96) || (123 <= n && n <= 126)
}

pub fn ascii_whitespace(c: char) -> (r: bool)
    ensures
        r == is_whitespace(c),
{
    c == ' ' || c == '\t' || c == '\n' || c == '\x0c' || c == '\r'
}

pub fn simple_punct_of(c: char) -> (r: Option<Punct>)
    ensures
        r == simple_punct(c),
{
    if c == '+' {
        Some(Punct::Plus)
    } else if c == '-' {
        Some(Punct::Minus)
    } else if c == '*' {
        Some(Punct::Mul)
    } else if c == '/' {
        Some(Punct::Div)
    } else if c == '(' {
        Some(Punct::LParen)
    } else if c == ')' {
        Some(Punct::RParen)
    } else if c == '[' {
        Some(Punct::LBoxBrackets)
    } else if c == ']' {
        Some(Punct::RBoxBrackets)
    } else if c == ';' {
        Some(Punct::Semi)
    } else if c == ':' {
        Some(Punct::Colon)
    } else if c == ',' {
        Some(Punct::Comma)
    } else if c == '.' {
        Some(Punct::Dot)
    } else if c == '|' {
        Some(Punct::Pipe)
    } else {
        None
    }
}

pub fn double_punct_of(c: char) -> (r: Option<(char, Punct, Option<Punct>)>)
    ensures
        r == double_punct(c),
{
    if c == '=' {
        Some(('=', Punct::Eq, Some(Punct::Assign)))
    } else if c == '>' {
        Some(('=', Punct::GE, Some(Punct::GT)))
    } else if c == '<' {
        Some(('=', Punct::LE, Some(Punct::LT)))
    } else if c == '&' {
        Some(('&', Punct::LAnd, Some(Punct::And)))
    } else if c == '@' {
        Some(('@', Punct::AtAt, Some(Punct::At)))
    } else if c == '!' {
        Some(('=', Punct::NE, None))
    } else {
        None
    }
}

pub fn escaped_char(c: char) -> (r: char)
    ensures
        r == escaped(c),
{
    if c == 'a' {
        '\x07'
    } else if c == 'b' {
        '\x08'
    } else if c == 'f' {
        '\x0c'
    } else if c == 'n' {
        '\x0a'
    } else if c == 'r' {
        '\x0d'
    } else if c == 't' {
        '\x09'
    } else if c == 'v' {
        '\x0b'
    } else {
        c
    }
}

/// The tokenizer: the text read so far and the place in it.
#[derive(Debug)]
pub struct Lexer {
    pub source_info: SourceInfo,
    pub len: usize,
    pub line_start_pos: usize,
    pub token_start_pos: usize,
    pub absolute_column_pos: usize,
    pub relative_column_pos: usize,
    pub line_pos: usize,
    /// The number of each reserved word.
    pub reserved: FxHashMap<String, usize>,
}

/// The tokens of a text.
#[derive(Debug, Clone)]
pub struct LexerResult {
    pub tokens: Vec<Token>,
}

impl LexerResult {
    pub fn new(tokens: Vec<Token>) -> (r: Self)
        ensures
            r.tokens == tokens,
    {
        LexerResult { tokens }
    }
}

impl View for Lexer {
    type V = Scanner;

    open spec fn view(&self) -> Scanner {
        Scanner {
            code: self.source_info.code@,
            coordinates: self.source_info.coordinates@,
            line_start_pos: self.line_start_pos as nat,
            token_start_pos: self.token_start_pos as nat,
            absolute_column_pos: self.absolute_column_pos as nat,
            relative_column_pos: self.relative_column_pos as nat,
            line_pos: self.line_pos as nat,
        }
    }
}

/// Whether a step of the tokenizer that yields a character did what it
/// should.
pub open spec fn scanned_char(expected: Scanned<char>, got: Result<char, Error>, after: Scanner) -> bool {
    match expected {
        Ok((s, c)) => got == Ok::<char, Error>(c) && after == s,
        Err(e) => got == Err::<char, Error>(e),
    }
}

/// Whether a step of the tokenizer that yields a token did what it should.
pub open spec fn scanned_token(expected: Scanned<TokenView>, got: Result<Token, Error>, after: Scanner) -> bool {
    match expected {
        Ok((s, t)) => got is Ok && (got->Ok_0.kind@, got->Ok_0.loc) == t && after == s,
        Err(e) => got == Err::<Token, Error>(e),
    }
}

impl Lexer {
    /// The positions are in order and within the text, and the reserved
    /// words are numbered.
    pub open spec fn wf(&self) -> bool {
        &&& self@.wf()
        &&& self.len == self.source_info.code@.len()
        &&& name_index(self.reserved) == words_index(reserved_words().len())
    }

    pub fn new() -> (r: Self)
        ensures
            r.wf(),
            r@ == (Scanner {
                code: Seq::empty(),
                coordinates: Seq::empty(),
                line_start_pos: 0,
                token_start_pos: 0,
                absolute_column_pos: 0,
                relative_column_pos: 0,
                line_pos: 0,
            }),
    {
        let mut reserved = fx_names_new();
        fx_names_insert(&mut reserved, "BEGIN".to_owned(), 0);
        fx_names_insert(&mut reserved, "END".to_owned(), 1);
        fx_names_insert(&mut reserved, "alias".to_owned(), 2);
        fx_names_insert(&mut reserved, "begin".to_owned(), 3);
        fx_names_insert(&mut reserved, "break".to_owned(), 4);
        fx_names_insert(&mut reserved, "case".to_owned(), 5);
        fx_names_insert(&mut reserved, "class".to_owned(), 6);
        fx_names_insert(&mut reserved, "def".to_owned(), 7);
        fx_names_insert(&mut reserved, "defined?".to_owned(), 8);
        fx_names_insert(&mut reserved, "do".to_owned(), 9);
        fx_names_insert(&mut reserved, "else".to_owned(), 10);
        fx_names_insert(&mut reserved, "elsif".to_owned(), 11);
        fx_names_insert(&mut reserved, "end".to_owned(), 12);
        fx_names_insert(&mut reserved, "false".to_owned(), 13);
        fx_names_insert(&mut reserved, "if".to_owned(), 14);
        fx_names_insert(&mut reserved, "return".to_owned(), 15);
        fx_names_insert(&mut reserved, "then".to_owned(), 16);
        fx_names_insert(&mut reserved, "true".to_owned(), 17);
        proof {
            reveal_with_fuel(words_index, 19);
            assert(reserved_words().len() == 18);
        }
        let source_info = SourceInfo::new();
        Lexer {
            source_info,
            len: 0,
            line_start_pos: 0,
            token_start_pos: 0,
            absolute_column_pos: 0,
            relative_column_pos: 0,
            line_pos: 0,
            reserved,
        }
    }

    /// The character under the cursor.
    pub fn peek(&self) -> (r: Result<char, Error>)
        requires
            self.wf(),
        ensures
            r == self@.peek(),
    {
        if self.absolute_column_pos >= self.len {
            Err(Error::EOF)
        } else {
            Ok(self.source_info.code[self.absolute_column_pos])
        }
    }

    fn push_line_coordinate(&mut self)
        ensures
            final(self).source_info.code == old(self).source_info.code,
            final(self).source_info.coordinates@ == old(self).source_info.coordinates@.push(
                (old(self).line_start_pos, old(self).absolute_column_pos, old(self).line_pos),
            ),
            final(self).len == old(self).len,
            final(self).line_start_pos == old(self).line_start_pos,
            final(self).token_start_pos == old(self).token_start_pos,
            final(self).absolute_column_pos == old(self).absolute_column_pos,
            final(self).relative_column_pos == old(self).relative_column_pos,
            final(self).line_pos == old(self).line_pos,
            final(self).reserved == old(self).reserved,
    {
        self.source_info.coordinates.push(
            (self.line_start_pos, self.absolute_column_pos, self.line_pos),
        );
    }

    /// Takes the character under the cursor. A line break ends the line.
    pub fn get(&mut self) -> (r: Result<char, Error>)
        requires
            old(self).wf(),
        ensures
            scanned_char(old(self)@.get(), r, final(self)@),
            r is Err ==> *final(self) == *old(self),
            final(self).wf(),
    {
        if self.absolute_column_pos >= self.len {
            Err(Error::EOF)
        } else {
            let ch = self.source_info.code[self.absolute_column_pos];
            if ch == '\n' {
                self.push_line_coordinate();
                self.line_pos += 1;
                self.line_start_pos = self.absolute_column_pos + 1;
                self.relative_column_pos = 0;
            }
            self.absolute_column_pos += 1;
            self.relative_column_pos += 1;
            Ok(ch)
        }
    }

    /// The span of the token that ends before the cursor.
    pub fn cur_loc(&self) -> (r: Loc)
        requires
            self.absolute_column_pos > 0,
        ensures
            r == self@.cur_loc(),
    {
        Loc(self.token_start_pos, self.absolute_column_pos - 1)
    }

    /// The line break under the cursor, as a token.
    pub fn read_eol(&mut self) -> (r: Token)
        requires
            old(self).wf(),
            old(self).absolute_column_pos < old(self).len,
        ensures
            (final(self)@, (r.kind@, r.loc)) == old(self)@.read_eol(),
            final(self).wf(),
    {
        self.push_line_coordinate();
        let tok = Token::new_line(Loc(self.absolute_column_pos, self.absolute_column_pos));
        self.line_pos += 1;
        self.absolute_column_pos += 1;
        self.line_start_pos = self.absolute_column_pos;
        self.relative_column_pos = 0;
        tok
    }

    /// The spaces from the cursor on, as one token. There must be one.
    pub fn read_space(&mut self) -> (r: Result<Token, Error>)
        requires
            old(self).wf(),
        ensures
            scanned_token(old(self)@.read_space(), r, final(self)@),
            final(self).wf(),
    {
        let start: usize = self.absolute_column_pos;
        let ghost s0 = self@;
        let mut end: usize = start;
        while end < self.len && self.source_info.code[end] == ' '
            invariant
                start <= end <= self.len,
                self.len == self.source_info.code@.len(),
                s0 == self@,
                start == s0.absolute_column_pos,
                s0.spaces_end() == (Scanner { absolute_column_pos: end as nat, ..s0 }).spaces_end(),
            decreases self.len - end,
        {
            end += 1;
        }
        if end == start {
            return Err(Error::UnexpectedChar);
        }
        self.token_start_pos = start;
        self.relative_column_pos = self.relative_column_pos + (end - start);
        self.absolute_column_pos = end;
        Ok(Token::new_space(Loc(start, end - 1)))
    }

    /// The white space at the cursor, if any, as a token.
    pub fn skip_whitespace(&mut self) -> (r: Result<Option<Token>, Error>)
        requires
            old(self).wf(),
        ensures
            match old(self)@.skip_whitespace() {
                Ok((s, Some(t))) => r is Ok && r->Ok_0 is Some && (
                    r->Ok_0->0.kind@,
                    r->Ok_0->0.loc,
                ) == t && final(self)@ == s,
                Ok((s, None)) => r is Ok && r->Ok_0 is None && final(self)@ == s,
                Err(e) => r == Err::<Option<Token>, Error>(e),
            },
            final(self).wf(),
    {
        let ghost s0 = self@;
        let mut p: usize = self.absolute_column_pos;
        while p < self.len
            invariant
                self.absolute_column_pos <= p <= self.len,
                self.wf(),
                s0 == self@,
                *self == *old(self),
                s0.skip_whitespace() == s0.skip_whitespace_from(p as nat),
            decreases self.len - p,
        {
            let ch = self.source_info.code[p];
            if ch == '\n' {
                return Ok(Some(self.read_eol()));
            } else if ch == '\t' {
                return Err(Error::ForbiddenTab);
            } else if ch == ' ' {
                return match self.read_space() {
                    Ok(t) => Ok(Some(t)),
                    Err(e) => Err(e),
                };
            } else if !ascii_whitespace(ch) {
                self.absolute_column_pos = p;
                return Ok(None);
            }
            p += 1;
        }
        self.absolute_column_pos = self.len;
        Ok(None)
    }

    /// A number literal that starts with `ch`, which has been taken.
    pub fn read_number_literal(&mut self, ch: char) -> (r: Result<Token, Error>)
        requires
            old(self).wf(),
            old(self).absolute_column_pos > 0,
        ensures
            scanned_token(old(self)@.read_number_literal(ch), r, final(self)@),
            final(self).wf(),
    {
        let ghost s0 = self@;
        let mut tok: Vec<char> = Vec::new();
        tok.push(ch);
        loop
            invariant
                self.wf(),
                self.absolute_column_pos > 0,
                s0.number_rest(seq![ch]) == self@.number_rest(tok@),
            ensures
                self.wf(),
                self.absolute_column_pos > 0,
                s0.number_rest(seq![ch]) == (self@, tok@),
            decreases self.len - self.absolute_column_pos,
        {
            match self.peek() {
                Err(_) => {
                    break ;
                },
                Ok(c) => {
                    if char_is_numeric(c) {
                        let _ = self.get();
                        tok.push(c);
                    } else if c == '_' {
                        let _ = self.get();
                    } else {
                        break ;
                    }
                },
            }
        }
        let text = string_from_chars(&tok);
        match parse_i64(text.as_str()) {
            Some(i) => Ok(Token::new_numlit(i, self.cur_loc())),
            None => Err(Error::UnexpectedChar),
        }
    }

    /// A word that starts with `ch`, which has been taken: a reserved word,
    /// a constant where it starts with a capital letter, or an identifier.
    pub fn read_ascii_alphabetic(&mut self, ch: char) -> (r: Token)
        requires
            old(self).wf(),
            old(self).absolute_column_pos > 0,
        ensures
            (final(self)@, (r.kind@, r.loc)) == old(self)@.read_ascii_alphabetic(ch),
            final(self).wf(),
    {
        let ghost s0 = self@;
        let is_const = ascii_upper(ch);
        let mut tok: Vec<char> = Vec::new();
        tok.push(ch);
        loop
            invariant
                self.wf(),
                self.absolute_column_pos > 0,
                s0.word_rest(seq![ch]) == self@.word_rest(tok@),
            ensures
                self.wf(),
                self.absolute_column_pos > 0,
                s0.word_rest(seq![ch]) == (self@, tok@),
            decreases self.len - self.absolute_column_pos,
        {
            match self.peek() {
                Err(_) => {
                    break ;
                },
                Ok(c) => {
                    if ascii_alphanumeric(c) || c == '_' {
                        let _ = self.get();
                        tok.push(c);
                    } else {
                        break ;
                    }
                },
            }
        }
        let word = string_from_chars(&tok);
        proof {
            lemma_words_index(word@, reserved_words().len());
        }
        match fx_names_get(&self.reserved, word.as_str()) {
            Some(i) => Token::new_reserved(reserved_by_number(i), self.cur_loc()),
            None => {
                if is_const {
                    Token::new_const(word, self.cur_loc())
                } else {
                    Token::new_ident(word, self.cur_loc())
                }
            },
        }
    }

    /// The punctuation that starts with `ch`, which has been taken.
    pub fn read_ascii_punct(&mut self, ch: char) -> (r: Result<Token, Error>)
        requires
            old(self).wf(),
            old(self).absolute_column_pos > 0,
        ensures
            scanned_token(old(self)@.read_ascii_punct(ch), r, final(self)@),
            final(self).wf(),
    {
        match simple_punct_of(ch) {
            Some(p) => Ok(Token::new_punct(p, self.cur_loc())),
            None => match double_punct_of(ch) {
                None => Err(Error::NotMatchPunctuation),
                Some((next, both, alone)) => {
                    let c = self.peek()?;
                    if c == next {
                        let _ = self.get();
                        Ok(Token::new_punct(both, self.cur_loc()))
                    } else {
                        match alone {
                            Some(p) => Ok(Token::new_punct(p, self.cur_loc())),
                            None => Err(Error::NotMatchPunctuation),
                        }
                    }
                },
            },
        }
    }

    /// Takes the characters up to and including the next line break, or up
    /// to the end of the text; says whether it found a line break.
    #[verifier::loop_isolation(false)]
    pub fn goto_eol(&mut self) -> (r: bool)
        requires
            old(self).wf(),
        ensures
            (final(self)@, r) == old(self)@.goto_eol(),
            final(self).wf(),
            final(self).absolute_column_pos >= old(self).absolute_column_pos,
    {
        let ghost s0 = self@;
        loop
            invariant
                self.wf(),
                self.absolute_column_pos >= old(self).absolute_column_pos,
                s0.goto_eol() == self@.goto_eol(),
            decreases self.len - self.absolute_column_pos,
        {
            match self.get() {
                Err(_) => {
                    return false;
                },
                Ok(c) => {
                    if c == '\n' {
                        return true;
                    }
                },
            }
        }
    }

    /// A comment, whose `#` has been taken: it reaches to the end of the
    /// line.
    pub fn read_comment(&mut self) -> (r: Result<Token, Error>)
        requires
            old(self).wf(),
        ensures
            scanned_token(old(self)@.read_comment(), r, final(self)@),
            final(self).wf(),
    {
        if self.absolute_column_pos == 0 {
            return Err(Error::UnexpectedChar);
        }
        let start: usize = self.absolute_column_pos - 1;
        let found = self.goto_eol();
        self.token_start_pos = start;
        let line_end_pos: usize = if found {
            let n: usize = self.source_info.coordinates.len();
            if n == 0 {
                return Err(Error::UnexpectedChar);
            }
            let first: usize = self.source_info.coordinates[n - 1].0;
            if first > usize::MAX - 2 || self.line_start_pos < first + 2 {
                return Err(Error::UnexpectedChar);
            }
            self.line_start_pos - first - 2
        } else {
            self.absolute_column_pos - 1
        };
        Ok(Token::new_comment(Loc(start, line_end_pos)))
    }

    /// A string literal in single quotes, whose first quote has been taken.
    pub fn read_string_literal_single(&mut self) -> (r: Result<Token, Error>)
        requires
            old(self).wf(),
        ensures
            scanned_token(
                match old(self)@.single_rest(Seq::empty()) {
                    Err(e) => Err(e),
                    Ok((s, text)) => Ok((s, (TokenKindView::StringLit(text), s.cur_loc()))),
                },
                r,
                final(self)@,
            ),
            final(self).wf(),
    {
        let ghost s0 = self@;
        let mut text: Vec<char> = Vec::new();
        loop
            invariant_except_break
                s0.single_rest(Seq::empty()) == self@.single_rest(text@),
            invariant
                self.wf(),
                s0 == old(self)@,
            ensures
                self.wf(),
                self.absolute_column_pos > 0,
                s0.single_rest(Seq::empty()) == Ok::<(Scanner, Seq<char>), Error>((self@, text@)),
            decreases self.len - self.absolute_column_pos,
        {
            let c = self.get()?;
            if c == '\'' {
                break ;
            }
            text.push(c);
        }
        Ok(Token::new_stringlit(string_from_chars(&text), self.cur_loc()))
    }

    /// A string literal in double quotes, whose first quote has been taken.
    pub fn read_string_literal_double(&mut self) -> (r: Result<Token, Error>)
        requires
            old(self).wf(),
        ensures
            scanned_token(
                match old(self)@.double_rest(Seq::empty()) {
                    Err(e) => Err(e),
                    Ok((s, text)) => Ok((s, (TokenKindView::StringLit(text), s.cur_loc()))),
                },
                r,
                final(self)@,
            ),
            final(self).wf(),
    {
        let ghost s0 = self@;
        let mut text: Vec<char> = Vec::new();
        loop
            invariant_except_break
                s0.double_rest(Seq::empty()) == self@.double_rest(text@),
            invariant
                self.wf(),
                s0 == old(self)@,
            ensures
                self.wf(),
                self.absolute_column_pos > 0,
                s0.double_rest(Seq::empty()) == Ok::<(Scanner, Seq<char>), Error>((self@, text@)),
            decreases self.len - self.absolute_column_pos,
        {
            let c = self.get()?;
            if c == '"' {
                break ;
            } else if c == '\\' {
                let e = self.get()?;
                text.push(escaped_char(e));
            } else {
                text.push(c);
            }
        }
        Ok(Token::new_stringlit(string_from_chars(&text), self.cur_loc()))
    }

    /// The token that starts with `ch`, which has been taken.
    pub fn read_token(&mut self, ch: char) -> (r: Result<Token, Error>)
        requires
            old(self).wf(),
            old(self).absolute_column_pos > 0,
        ensures
            scanned_token(old(self)@.read_token(ch), r, final(self)@),
            final(self).wf(),
    {
        if ascii_alphabetic(ch) || ch == '_' {
            Ok(self.read_ascii_alphabetic(ch))
        } else if char_is_numeric(ch) {
            self.read_number_literal(ch)
        } else if ascii_punctuation(ch) {
            if ch == '#' {
                self.read_comment()
            } else if ch == '\'' {
                self.read_string_literal_single()
            } else if ch == '"' {
                self.read_string_literal_double()
            } else {
                self.read_ascii_punct(ch)
            }
        } else {
            Err(Error::UnexpectedChar)
        }
    }

    /// Adds `text` to the text read so far and puts the cursor at its
    /// start. The line that was the last before is open again.
    pub fn resume(&mut self, text: &str)
        requires
            old(self).wf(),
            old(self)@.code.len() + text@.len() <= usize::MAX,
        ensures
            final(self)@ == old(self)@.resume(text@),
            final(self).wf(),
    {
        let mut code = chars_of(text);
        let n: usize = self.source_info.coordinates.len();
        if n > 0 {
            let next_pos: usize = self.source_info.code.len();
            self.line_start_pos = next_pos;
            self.token_start_pos = next_pos;
            self.relative_column_pos = next_pos;
            self.absolute_column_pos = next_pos;
            self.line_pos = self.source_info.coordinates[n - 1].2;
            self.source_info.coordinates.pop();
        }
        self.source_info.code.append(&mut code);
        self.len = self.source_info.code.len();
        proof {
            assert forall|i: int| 0 <= i < self@.coordinates.len() implies (
            #[trigger] self@.coordinates[i]).2 <= self@.code.len() by {
                assert(self@.coordinates[i] == old(self)@.coordinates[i]);
            }
        }
    }

    /// The tokens of `code_text`, which is added to the text read so far.
    #[verifier::loop_isolation(false)]
    pub fn tokenize(&mut self, code_text: &str) -> (r: Result<LexerResult, Error>)
        requires
            old(self).wf(),
            old(self)@.code.len() + code_text@.len() <= usize::MAX,
        ensures
            match old(self)@.tokenize(code_text@) {
                Ok((s, tokens)) => {
                    &&& r is Ok
                    &&& tokens_view(r->Ok_0.tokens@) == tokens
                    &&& final(self)@ == s
                },
                Err(e) => r == Err::<LexerResult, Error>(e),
            },
            final(self).wf(),
    {
        self.resume(code_text);
        let ghost s0 = self@;
        let ghost total = (old(self)@.code.len() + code_text@.len() + 1) as nat;
        let mut rounds: u128 = self.len as u128 + 1;
        let mut tokens: Vec<Token> = Vec::new();
        assert(tokens_view(tokens@) =~= Seq::<TokenView>::empty());
        loop
            invariant
                self.wf(),
                s0.scan(Seq::empty(), total) == self@.scan(tokens_view(tokens@), rounds as nat),
            decreases rounds,
        {
            if rounds == 0 {
                return Err(Error::UnexpectedChar);
            }
            rounds -= 1;
            let ghost before = tokens@;
            match self.skip_whitespace()? {
                Some(tok) => {
                    tokens.push(tok);
                    assert(tokens_view(tokens@) =~= tokens_view(before).push((tok.kind@, tok.loc)));
                },
                None => {
                    self.token_start_pos = self.absolute_column_pos;
                    match self.get() {
                        Err(_) => {
                            self.source_info.coordinates.push(
                                (self.line_start_pos, self.len, self.line_pos),
                            );
                            let tok = Token::new_eof(
                                Loc(self.token_start_pos, self.token_start_pos),
                            );
                            tokens.push(tok);
                            assert(tokens_view(tokens@) =~= tokens_view(before).push(
                                (tok.kind@, tok.loc),
                            ));
                            return Ok(LexerResult::new(tokens));
                        },
                        Ok(ch) => {
                            let tok = self.read_token(ch)?;
                            tokens.push(tok);
                            assert(tokens_view(tokens@) =~= tokens_view(before).push(
                                (tok.kind@, tok.loc),
                            ));
                        },
                    }
                },
            }
        }
    }
}

impl Clone for Lexer {
    fn clone(&self) -> (r: Self)
        ensures
            r@ == self@,
            r.wf() == self.wf(),
    {
        let mut code: Vec<char> = Vec::new();
        let mut i: usize = 0;
        while i < self.source_info.code.len()
            invariant
                i <= self.source_info.code.len(),
                code@ == self.source_info.code@.subrange(0, i as int),
            decreases self.source_info.code.len() - i,
        {
            code.push(self.source_info.code[i]);
            assert(code@ =~= self.source_info.code@.subrange(0, i + 1));
            i += 1;
        }
        assert(self.source_info.code@.subrange(0, i as int) =~= self.source_info.code@);
        let mut coordinates: Vec<(usize, usize, usize)> = Vec::new();
        let mut j: usize = 0;
        while j < self.source_info.coordinates.len()
            invariant
                j <= self.source_info.coordinates.len(),
                coordinates@ == self.source_info.coordinates@.subrange(0, j as int),
            decreases self.source_info.coordinates.len() - j,
        {
            coordinates.push(self.source_info.coordinates[j]);
            assert(coordinates@ =~= self.source_info.coordinates@.subrange(0, j + 1));
            j += 1;
        }
        assert(self.source_info.coordinates@.subrange(0, j as int)
            =~= self.source_info.coordinates@);
        Lexer {
            source_info: SourceInfo { code, coordinates },
            len: self.len,
            line_start_pos: self.line_start_pos,
            token_start_pos: self.token_start_pos,
            absolute_column_pos: self.absolute_column_pos,
            relative_column_pos: self.relative_column_pos,
            line_pos: self.line_pos,
            reserved: fx_names_clone(&self.reserved),
        }
    }
}

/// The tokens of a text end with the end of input.
pub proof fn lemma_scan_ends(s: Scanner, acc: Seq<TokenView>, rounds: nat)
    requires
        s.scan(acc, rounds) is Ok,
    ensures
        s.scan(acc, rounds)->Ok_0.1.len() > 0,
        s.scan(acc, rounds)->Ok_0.1.last().0 is EOF,
    decreases rounds,
{
    if rounds > 0 {
        match s.skip_whitespace() {
            Err(e) => {},
            Ok((s1, Some(t))) => {
                lemma_scan_ends(s1, acc.push(t), (rounds - 1) as nat);
            },
            Ok((s1, None)) => {
                let s2 = Scanner { token_start_pos: s1.absolute_column_pos, ..s1 };
                match s2.get() {
                    Err(_) => {},
                    Ok((s3, ch)) => match s3.read_token(ch) {
                        Err(e) => {},
                        Ok((s4, t)) => {
                            lemma_scan_ends(s4, acc.push(t), (rounds - 1) as nat);
                        },
                    },
                }
            },
        }
    }
}

/// Whether `after` is a state of the same text as `before`, with the
/// cursor no further back.
pub open spec fn moved_on(before: Scanner, after: Scanner) -> bool {
    &&& after.code == before.code
    &&& after.absolute_column_pos >= before.absolute_column_pos
    &&& after.absolute_column_pos <= after.code.len()
}

/// Taking a character moves the cursor on by one.
pub proof fn lemma_get_moves(s: Scanner)
    requires
        s.get() is Ok,
    ensures
        s.get()->Ok_0.0.code == s.code,
        s.get()->Ok_0.0.absolute_column_pos == s.absolute_column_pos + 1,
        s.get()->Ok_0.0.absolute_column_pos <= s.code.len(),
{
}

pub proof fn lemma_spaces_end(s: Scanner)
    requires
        s.absolute_column_pos <= s.code.len(),
    ensures
        s.absolute_column_pos <= s.spaces_end() <= s.code.len(),
    decreases s.code.len() - s.absolute_column_pos,
{
    if s.absolute_column_pos < s.code.len() && s.code[s.absolute_column_pos as int] == ' ' {
        lemma_spaces_end(Scanner { absolute_column_pos: s.absolute_column_pos + 1, ..s });
    }
}

/// White space that becomes a token moves the cursor on; without a token
/// the cursor does not move back.
pub proof fn lemma_skip_whitespace_moves(s: Scanner, p: nat)
    requires
        s.absolute_column_pos <= p,
        s.absolute_column_pos <= s.code.len(),
        s.skip_whitespace_from(p) is Ok,
    ensures
        moved_on(s, s.skip_whitespace_from(p)->Ok_0.0),
        s.skip_whitespace_from(p)->Ok_0.1 is Some ==> s.skip_whitespace_from(
            p,
        )->Ok_0.0.absolute_column_pos > s.absolute_column_pos,
    decreases s.code.len() - p,
{
    if p < s.code.len() {
        let ch = s.code[p as int];
        if ch == '\n' {
        } else if ch == '\t' {
        } else if ch == ' ' {
            lemma_spaces_end(s);
        } else if !is_whitespace(ch) {
        } else {
            lemma_skip_whitespace_moves(s, p + 1);
        }
    }
}

pub proof fn lemma_number_rest_moves(s: Scanner, acc: Seq<char>)
    requires
        s.absolute_column_pos <= s.code.len(),
    ensures
        moved_on(s, s.number_rest(acc).0),
    decreases s.code.len() - s.absolute_column_pos,
{
    match s.get() {
        Err(_) => {},
        Ok((s1, ch)) => {
            if is_numeric(ch) {
                lemma_number_rest_moves(s1, acc.push(ch));
            } else if ch == '_' {
                lemma_number_rest_moves(s1, acc);
            }
        },
    }
}

pub proof fn lemma_word_rest_moves(s: Scanner, acc: Seq<char>)
    requires
        s.absolute_column_pos <= s.code.len(),
    ensures
        moved_on(s, s.word_rest(acc).0),
    decreases s.code.len() - s.absolute_column_pos,
{
    match s.get() {
        Err(_) => {},
        Ok((s1, ch)) => {
            if is_alphanumeric(ch) || ch == '_' {
                lemma_word_rest_moves(s1, acc.push(ch));
            }
        },
    }
}

pub proof fn lemma_goto_eol_moves(s: Scanner)
    requires
        s.absolute_column_pos <= s.code.len(),
    ensures
        moved_on(s, s.goto_eol().0),
    decreases s.code.len() - s.absolute_column_pos,
{
    match s.get() {
        Err(_) => {},
        Ok((s1, ch)) => {
            if ch != '\n' {
                lemma_goto_eol_moves(s1);
            }
        },
    }
}

pub proof fn lemma_single_rest_moves(s: Scanner, acc: Seq<char>)
    requires
        s.absolute_column_pos <= s.code.len(),
        s.single_rest(acc) is Ok,
    ensures
        moved_on(s, s.single_rest(acc)->Ok_0.0),
    decreases s.code.len() - s.absolute_column_pos,
{
    match s.get() {
        Err(_) => {},
        Ok((s1, ch)) => {
            if ch != '\'' {
                lemma_single_rest_moves(s1, acc.push(ch));
            }
        },
    }
}

pub proof fn lemma_double_rest_moves(s: Scanner, acc: Seq<char>)
    requires
        s.absolute_column_pos <= s.code.len(),
        s.double_rest(acc) is Ok,
    ensures
        moved_on(s, s.double_rest(acc)->Ok_0.0),
    decreases s.code.len() - s.absolute_column_pos,
{
    match s.get() {
        Err(_) => {},
        Ok((s1, ch)) => {
            if ch == '"' {
            } else if ch == '\\' {
                match s1.get() {
                    Err(_) => {},
                    Ok((s2, c)) => {
                        lemma_double_rest_moves(s2, acc.push(escaped(c)));
                    },
                }
            } else {
                lemma_double_rest_moves(s1, acc.push(ch));
            }
        },
    }
}

/// Reading a token does not move the cursor back.
pub proof fn lemma_read_token_moves(s: Scanner, ch: char)
    requires
        s.absolute_column_pos <= s.code.len(),
        s.read_token(ch) is Ok,
    ensures
        moved_on(s, s.read_token(ch)->Ok_0.0),
{
    if is_alphabetic(ch) || ch == '_' {
        lemma_word_rest_moves(s, seq![ch]);
    } else if is_numeric(ch) {
        lemma_number_rest_moves(s, seq![ch]);
    } else if is_punctuation(ch) {
        if ch == '#' {
            lemma_goto_eol_moves(s);
        } else if ch == '\'' {
            lemma_single_rest_moves(s, Seq::empty());
        } else if ch == '"' {
            lemma_double_rest_moves(s, Seq::empty());
        }
    }
}

/// The bound on the number of rounds never cuts the tokenizer short: with
/// one round more than there are characters left, more rounds change
/// nothing.
pub proof fn lemma_scan_rounds(s: Scanner, acc: Seq<TokenView>, rounds: nat, more: nat)
    requires
        s.absolute_column_pos <= s.code.len(),
        rounds >= s.code.len() - s.absolute_column_pos + 1,
        more >= rounds,
    ensures
        s.scan(acc, more) == s.scan(acc, rounds),
    decreases rounds,
{
    match s.skip_whitespace() {
        Err(e) => {},
        Ok((s1, Some(t))) => {
            lemma_skip_whitespace_moves(s, s.absolute_column_pos);
            lemma_scan_rounds(s1, acc.push(t), (rounds - 1) as nat, (more - 1) as nat);
        },
        Ok((s1, None)) => {
            lemma_skip_whitespace_moves(s, s.absolute_column_pos);
            let s2 = Scanner { token_start_pos: s1.absolute_column_pos, ..s1 };
            match s2.get() {
                Err(_) => {},
                Ok((s3, ch)) => {
                    lemma_get_moves(s2);
                    match s3.read_token(ch) {
                        Err(e) => {},
                        Ok((s4, t)) => {
                            lemma_read_token_moves(s3, ch);
                            lemma_scan_rounds(
                                s4,
                                acc.push(t),
                                (rounds - 1) as nat,
                                (more - 1) as nat,
                            );
                        },
                    }
                },
            }
        },
    }
}

/// The tokens of a text do not depend on the bound on the number of
/// rounds: any larger bound gives the same tokens.
pub proof fn lemma_tokenize_unbounded(s: Scanner, text: Seq<char>, more: nat)
    requires
        s.wf(),
        more >= s.code.len() + text.len() + 1,
    ensures
        s.resume(text).scan(Seq::empty(), more) == s.tokenize(text),
{
    let r = s.resume(text);
    lemma_scan_rounds(r, Seq::empty(), (s.code.len() + text.len() + 1) as nat, more);
}

} // verus!
