use computor_v2::lexer::Lexer;
use computor_v2::lexer::Token;
use computor_v2::lexer::Token::{
    Asterisk, Caret, Comma, Equal, LBracket, LParen, Minus, NumString, Percent, Plus, Question,
    RBracket, RParen, SemiColon, Slash, TwoAsterisk, I,
};

fn name(s: &str) -> Token {
    Token::String(Box::new(s.to_string()))
}

fn num(s: &str) -> Token {
    NumString(Box::new(s.to_string()))
}

fn lex(s: &str) -> Result<Vec<Token>, String> {
    let s = s.to_string();
    let mut lexer = Lexer::new(&s);
    lexer.make_token_vec()
}

#[test]
fn lexer_all() {
    let s = "()^*/%**+-i=?[],;a1A2zz ZZ123.098^A".to_string();
    let mut lexer = Lexer::new(&s);
    let vec = lexer.make_token_vec();
    assert_eq!(
        vec,
        Ok(vec![
            LParen,
            RParen,
            Caret,
            Asterisk,
            Slash,
            Percent,
            TwoAsterisk,
            Plus,
            Minus,
            I,
            Equal,
            Question,
            LBracket,
            RBracket,
            Comma,
            SemiColon,
            name("a"),
            num("1"),
            name("A"),
            num("2"),
            name("zz"),
            name("ZZ"),
            num("123.098"),
            Caret,
            name("A")
        ])
    );
}

#[test]
fn lexer_empty() {
    let s = "".to_string();
    let mut lexer = Lexer::new(&s);
    let vec = lexer.make_token_vec();
    assert_eq!(vec, Ok(vec![]));
}

#[test]
fn lexer_empty_empty() {
    let s = "".to_string();
    let mut lexer = Lexer::new(&s);
    let vec = lexer.make_token_vec();
    assert_eq!(vec, Ok(vec![]));
}

#[test]
fn lexer_solo_solo() {
    let s = "^".to_string();
    let mut lexer = Lexer::new(&s);
    let vec = lexer.make_token_vec();
    assert_eq!(vec, Ok(vec![Caret]));
}

#[test]
fn lexer_solo_asterisk() {
    let s = "*".to_string();
    let mut lexer = Lexer::new(&s);
    let vec = lexer.make_token_vec();
    assert_eq!(vec, Ok(vec![Asterisk]));
}

#[test]
fn lexer_solo_two_asterisk() {
    let s = "**".to_string();
    let mut lexer = Lexer::new(&s);
    let vec = lexer.make_token_vec();
    assert_eq!(vec, Ok(vec![TwoAsterisk]));
}

#[test]
fn lexer_solo_alphabet() {
    let s = "x".to_string();
    let mut lexer = Lexer::new(&s);
    let vec = lexer.make_token_vec();
    assert_eq!(vec, Ok(vec![name("x")]));
}

#[test]
fn lexer_solo_num() {
    let s = "1".to_string();
    let mut lexer = Lexer::new(&s);
    let vec = lexer.make_token_vec();
    assert_eq!(vec, Ok(vec![num("1")]));
}

#[test]
fn lexer_unsupported_character() {
    let s = "aa}aa".to_string();
    let mut lexer = Lexer::new(&s);
    let vec = lexer.make_token_vec();
    assert_eq!(vec, Err("Unsupported character: }".to_string()));
}

#[test]
fn lexer_unsupported_character_i() {
    let s = "aaIaa".to_string();
    let mut lexer = Lexer::new(&s);
    let vec = lexer.make_token_vec();
    assert_eq!(vec, Err("Unsupported character: I".to_string()));
}

#[test]
fn lexer_unsupported_dot() {
    let s = "aa.aa".to_string();
    let mut lexer = Lexer::new(&s);
    let vec = lexer.make_token_vec();
    assert_eq!(vec, Err("'.' is in the wrong position.".to_string()));
}

#[test]
fn lexer_unsupported_two_dot() {
    let s = "aa1..2aa".to_string();
    let mut lexer = Lexer::new(&s);
    let vec = lexer.make_token_vec();
    assert_eq!(vec, Err("'.' is in the wrong position.".to_string()));
}

#[test]
fn lexer_digits_close_a_name() {
    assert_eq!(lex("a1"), Ok(vec![name("a"), num("1")]));
    assert_eq!(lex("1a"), Ok(vec![num("1"), name("a")]));
}

#[test]
fn lexer_i_starts_a_token_but_continues_a_name() {
    assert_eq!(lex("sin"), Ok(vec![name("sin")]));
    assert_eq!(lex("variables functions history"), Ok(vec![
        name("variables"),
        name("functions"),
        name("history")
    ]));
    assert_eq!(lex("xi"), Ok(vec![name("xi")]));
    assert_eq!(lex("ix"), Ok(vec![I, name("x")]));
    assert_eq!(lex("ii"), Ok(vec![I, I]));
    assert_eq!(lex("2i"), Ok(vec![num("2"), I]));
    assert_eq!(lex("2ia"), Ok(vec![num("2"), I, name("a")]));
    assert_eq!(lex("a i"), Ok(vec![name("a"), I]));
    assert_eq!(lex("siIn"), Err("Unsupported character: I".to_string()));
}

#[test]
fn lexer_whitespace_separates() {
    assert_eq!(lex("  1 \t+\n2\r "), Ok(vec![num("1"), Plus, num("2")]));
    assert_eq!(lex("* *"), Ok(vec![Asterisk, Asterisk]));
    assert_eq!(lex("***"), Ok(vec![TwoAsterisk, Asterisk]));
    assert_eq!(lex("1. 2"), Ok(vec![num("1."), num("2")]));
}

#[test]
fn lexer_asterisk_before_bad_character() {
    assert_eq!(lex("*."), Err("'.' is in the wrong position.".to_string()));
    assert_eq!(lex("*}"), Err("Unsupported character: }".to_string()));
    assert_eq!(lex("."), Err("Unsupported character: .".to_string()));
}

#[test]
fn lexer_next_token_one_at_a_time() {
    let s = "ab 12".to_string();
    let mut lexer = Lexer::new(&s);
    assert_eq!(lexer.next_token(), Ok(Some(name("ab"))));
    assert_eq!(lexer.peek(), Some(&' '));
    assert_eq!(lexer.next(), Some(' '));
    assert_eq!(lexer.next_token(), Ok(Some(num("12"))));
    assert_eq!(lexer.next_token(), Ok(None));
    assert_eq!(lexer.peek(), None);
    assert_eq!(lexer.next(), None);
}

#[test]
fn lexer_round_trip_without_whitespace() {
    let s = "(a1+2.5)**[[1,2];[3,4]]^x%i=?";
    let tokens = lex(s).unwrap();
    let mut written = String::new();
    for t in &tokens {
        let piece = match t {
            LParen => "(".to_string(),
            RParen => ")".to_string(),
            LBracket => "[".to_string(),
            RBracket => "]".to_string(),
            Comma => ",".to_string(),
            SemiColon => ";".to_string(),
            Caret => "^".to_string(),
            TwoAsterisk => "**".to_string(),
            Asterisk => "*".to_string(),
            Slash => "/".to_string(),
            Percent => "%".to_string(),
            Plus => "+".to_string(),
            Minus => "-".to_string(),
            I => "i".to_string(),
            Equal => "=".to_string(),
            Question => "?".to_string(),
            NumString(s) => (**s).clone(),
            Token::String(s) => (**s).clone(),
        };
        written.push_str(&piece);
    }
    assert_eq!(written, s);
    assert_eq!(lex(&written), Ok(tokens));
}
