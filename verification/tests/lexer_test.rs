use taiko::annot::{Annot, Loc};
use taiko::lexer::Lexer;
use taiko::parser::Parser;
use taiko::scan::Error;
use taiko::token::{Punct, Reserved, Token, TokenKind};

fn assert_lexer(program: &str, ans: Vec<Annot<TokenKind>>) {
    let mut lexer = Lexer::new();
    match lexer.tokenize(program) {
        Ok(lexer_result) => assert_eq!(lexer_result.tokens, ans),
        Err(err) => panic!("{:?}", err),
    }
}

fn ident(name: &str, a: usize, b: usize) -> Token {
    Token::new_ident(name.to_string(), Loc(a, b))
}

fn space(a: usize, b: usize) -> Token {
    Token::new_space(Loc(a, b))
}

fn punct(p: Punct, a: usize, b: usize) -> Token {
    Token::new_punct(p, Loc(a, b))
}

fn reserved(r: Reserved, a: usize, b: usize) -> Token {
    Token::new_reserved(r, Loc(a, b))
}

fn numlit(n: i64, a: usize, b: usize) -> Token {
    Token::new_numlit(n, Loc(a, b))
}

fn line(a: usize, b: usize) -> Token {
    Token::new_line(Loc(a, b))
}

fn eof(a: usize, b: usize) -> Token {
    Token::new_eof(Loc(a, b))
}

#[test]
fn lexer_test() {
    let program = "a = 0;\n if a == 1_000 then 5 else 10;  # comment_line";
    let ans = vec![
        ident("a", 0, 0),
        space(1, 1),
        punct(Punct::Assign, 2, 2),
        space(3, 3),
        numlit(0, 4, 4),
        punct(Punct::Semi, 5, 5),
        line(6, 6),
        space(7, 7),
        reserved(Reserved::If, 8, 9),
        space(10, 10),
        ident("a", 11, 11),
        space(12, 12),
        punct(Punct::Eq, 13, 14),
        space(15, 15),
        numlit(1000, 16, 20),
        space(21, 21),
        reserved(Reserved::Then, 22, 25),
        space(26, 26),
        numlit(5, 27, 27),
        space(28, 28),
        reserved(Reserved::Else, 29, 32),
        space(33, 33),
        numlit(10, 34, 35),
        punct(Punct::Semi, 36, 36),
        space(37, 38),
        punct(Punct::Comment, 39, 52),
        eof(53, 53),
    ];
    assert_lexer(program, ans);
}

#[test]
fn lexer_forbidden_tab() {
    let program = "\ta = 0";
    println!("{}", program);
    let mut lexer = Lexer::new();
    let lexer_result = lexer.tokenize(program).unwrap_err();
    assert_eq!(lexer_result, Error::ForbiddenTab);
}

fn compare(program: &str, p: Punct, width: usize) {
    let ans = vec![
        numlit(5, 0, 0),
        space(1, 1),
        punct(p, 2, 1 + width),
        space(2 + width, 2 + width),
        numlit(0, 3 + width, 3 + width),
        eof(4 + width, 4 + width),
    ];
    assert_lexer(program, ans);
}

#[test]
fn cmp1() {
    compare("5 > 0", Punct::GT, 1);
}

#[test]
fn cmp2() {
    compare("5 >= 0", Punct::GE, 2);
}

#[test]
fn cmp3() {
    compare("5 == 0", Punct::Eq, 2);
}

#[test]
fn cmp4() {
    compare("5 != 0", Punct::NE, 2);
}

#[test]
fn cmp5() {
    compare("5 < 0", Punct::LT, 1);
}

#[test]
fn cmp6() {
    compare("5 <= 0", Punct::LE, 2);
}

#[test]
fn words_constants_and_reserved_words() {
    assert_lexer(
        "Foo foo_1 end _x class",
        vec![
            Token::new_const("Foo".to_string(), Loc(0, 2)),
            space(3, 3),
            ident("foo_1", 4, 8),
            space(9, 9),
            reserved(Reserved::End, 10, 12),
            space(13, 13),
            ident("_x", 14, 15),
            space(16, 16),
            reserved(Reserved::Class, 17, 21),
            eof(22, 22),
        ],
    );
}

#[test]
fn string_literals_and_escapes() {
    let mut lexer = Lexer::new();
    let tokens = lexer.tokenize("'a\\n' \"b\\n\\\"c\\q\"").unwrap().tokens;
    assert_eq!(
        tokens,
        vec![
            Token::new_stringlit("a\\n".to_string(), Loc(0, 4)),
            space(5, 5),
            Token::new_stringlit("b\n\"cq".to_string(), Loc(6, 15)),
            eof(16, 16),
        ]
    );
    assert_eq!(Lexer::new().tokenize("'abc").unwrap_err(), Error::EOF);
    assert_eq!(Lexer::new().tokenize("\"abc\\").unwrap_err(), Error::EOF);
}

#[test]
fn punctuation() {
    let mut lexer = Lexer::new();
    let kinds: Vec<TokenKind> =
        lexer.tokenize("+-*/()[];:,.|&&&@@@=!=").unwrap().tokens.into_iter().map(|t| t.kind).collect();
    let expected: Vec<TokenKind> = vec![
        Punct::Plus,
        Punct::Minus,
        Punct::Mul,
        Punct::Div,
        Punct::LParen,
        Punct::RParen,
        Punct::LBoxBrackets,
        Punct::RBoxBrackets,
        Punct::Semi,
        Punct::Colon,
        Punct::Comma,
        Punct::Dot,
        Punct::Pipe,
        Punct::LAnd,
        Punct::And,
    ]
    .into_iter()
    .map(TokenKind::Punct)
    .collect();
    assert_eq!(&kinds[..15], &expected[..]);
    assert_eq!(kinds[15], TokenKind::Punct(Punct::AtAt));
    assert_eq!(kinds[16], TokenKind::Punct(Punct::At));
    assert_eq!(kinds[17], TokenKind::Punct(Punct::Assign));
    assert_eq!(kinds[18], TokenKind::Punct(Punct::NE));
    assert_eq!(kinds[19], TokenKind::EOF);
}

#[test]
fn refused_input() {
    assert_eq!(Lexer::new().tokenize("a = {").unwrap_err(), Error::NotMatchPunctuation);
    assert_eq!(Lexer::new().tokenize("!x").unwrap_err(), Error::NotMatchPunctuation);
    assert_eq!(Lexer::new().tokenize("defined?").unwrap_err(), Error::NotMatchPunctuation);
    assert_eq!(Lexer::new().tokenize("a =").unwrap_err(), Error::EOF);
    assert_eq!(Lexer::new().tokenize("é").unwrap_err(), Error::UnexpectedChar);
    assert_eq!(Lexer::new().tokenize("99999999999999999999").unwrap_err(), Error::UnexpectedChar);
    assert_eq!(Lexer::new().tokenize("a\r b").unwrap_err(), Error::UnexpectedChar);
}

#[test]
fn numbers() {
    assert_lexer("1_000_", vec![numlit(1000, 0, 5), eof(6, 6)]);
    assert_lexer("007", vec![numlit(7, 0, 2), eof(3, 3)]);
    assert_eq!(Lexer::new().tokenize("\u{0663}").unwrap_err(), Error::UnexpectedChar);
    assert_eq!(Lexer::new().tokenize("1\u{0663}").unwrap_err(), Error::UnexpectedChar);
    assert_lexer("9223372036854775807", vec![numlit(i64::MAX, 0, 18), eof(19, 19)]);
}

#[test]
fn coordinates1() {
    let prog = "
a  = 0
bb=3
# comment line
c = 3
# comment_line";
    let expected = vec![(0, 0, 0), (1, 7, 1), (8, 12, 2), (13, 27, 3), (28, 33, 4), (34, 48, 5)];
    let mut parser = Parser::new();
    parser.parse_program(prog).unwrap();
    let coordinates = parser.lexer.source_info.coordinates;
    if coordinates != expected {
        panic!("Expected:{:?} Got:{:?}", expected, coordinates);
    }
}

#[test]
fn a_second_text_continues_the_first() {
    let mut lexer = Lexer::new();
    lexer.tokenize("a\nb").unwrap();
    assert_eq!(lexer.source_info.coordinates, vec![(0, 1, 0), (2, 3, 1)]);
    let tokens = lexer.tokenize("c\n").unwrap().tokens;
    assert_eq!(tokens, vec![ident("c", 3, 3), line(4, 4), eof(5, 5)]);
    assert_eq!(lexer.source_info.coordinates, vec![(0, 1, 0), (3, 4, 1), (5, 5, 2)]);
    assert_eq!(lexer.source_info.code, vec!['a', '\n', 'b', 'c', '\n']);
}

#[test]
fn new_parser_has_read_nothing() {
    let parser = Parser::new();
    assert_eq!(parser.tokens.len(), 0);
    assert_eq!(parser.cursor, 0);
    assert!(parser.block_context_stack.is_empty());
    assert!(parser.line_context_stack.is_empty());
    assert!(parser.lexer.source_info.code.is_empty());
    assert!(parser.lexer.source_info.coordinates.is_empty());
    assert_eq!(parser.lexer.absolute_column_pos, 0);
    assert_eq!(parser.lexer.line_pos, 0);
}
