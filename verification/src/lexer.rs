use vstd::prelude::*;
use crate::text::{chars_of, push_char, string_from_chars};

verus! {

/// One lexical unit of the calculator language.
#[derive(Debug, PartialEq)]
pub enum Token {
    LParen,
    RParen,
    LBracket,
    RBracket,
    Comma,
    SemiColon,
    Caret,
    TwoAsterisk,
    Asterisk,
    Slash,
    Percent,
    Plus,
    Minus,
    I,
    Equal,
    Question,
    /// Decimal digits with at most one `.`.
    NumString(Box<String>),
    /// ASCII letters, as typed.
    String(Box<String>),
}

impl Clone for Token {
    fn clone(&self) -> (res: Token)
        ensures
            res@ == self@,
    {
        match self {
            Token::LParen => Token::LParen,
            Token::RParen => Token::RParen,
            Token::LBracket => Token::LBracket,
            Token::RBracket => Token::RBracket,
            Token::Comma => Token::Comma,
            Token::SemiColon => Token::SemiColon,
            Token::Caret => Token::Caret,
            Token::TwoAsterisk => Token::TwoAsterisk,
            Token::Asterisk => Token::Asterisk,
            Token::Slash => Token::Slash,
            Token::Percent => Token::Percent,
            Token::Plus => Token::Plus,
            Token::Minus => Token::Minus,
            Token::I => Token::I,
            Token::Equal => Token::Equal,
            Token::Question => Token::Question,
            Token::NumString(s) => Token::NumString(Box::new((**s).clone())),
            Token::String(s) => Token::String(Box::new((**s).clone())),
        }
    }
}

/// What a token is, with its text as a sequence of characters.
pub enum Lexeme {
    LParen,
    RParen,
    LBracket,
    RBracket,
    Comma,
    SemiColon,
    Caret,
    TwoAsterisk,
    Asterisk,
    Slash,
    Percent,
    Plus,
    Minus,
    I,
    Equal,
    Question,
    Number(Seq<char>),
    Name(Seq<char>),
}

impl View for Token {
    type V = Lexeme;

    open spec fn view(&self) -> Lexeme {
        match self {
            Token::LParen => Lexeme::LParen,
            Token::RParen => Lexeme::RParen,
            Token::LBracket => Lexeme::LBracket,
            Token::RBracket => Lexeme::RBracket,
            Token::Comma => Lexeme::Comma,
            Token::SemiColon => Lexeme::SemiColon,
            Token::Caret => Lexeme::Caret,
            Token::TwoAsterisk => Lexeme::TwoAsterisk,
            Token::Asterisk => Lexeme::Asterisk,
            Token::Slash => Lexeme::Slash,
            Token::Percent => Lexeme::Percent,
            Token::Plus => Lexeme::Plus,
            Token::Minus => Lexeme::Minus,
            Token::I => Lexeme::I,
            Token::Equal => Lexeme::Equal,
            Token::Question => Lexeme::Question,
            Token::NumString(s) => Lexeme::Number(s@),
            Token::String(s) => Lexeme::Name(s@),
        }
    }
}

/// The lexemes of a token vector.
pub open spec fn lexemes(tokens: Seq<Token>) -> Seq<Lexeme> {
    tokens.map_values(|t: Token| t@)
}

impl Lexeme {
    /// The characters a lexeme is written with.
    pub open spec fn surface(self) -> Seq<char> {
        match self {
            Lexeme::LParen => seq!['('],
            Lexeme::RParen => seq![')'],
            Lexeme::LBracket => seq!['['],
            Lexeme::RBracket => seq![']'],
            Lexeme::Comma => seq![','],
            Lexeme::SemiColon => seq![';'],
            Lexeme::Caret => seq!['^'],
            Lexeme::TwoAsterisk => seq!['*', '*'],
            Lexeme::Asterisk => seq!['*'],
            Lexeme::Slash => seq!['/'],
            Lexeme::Percent => seq!['%'],
            Lexeme::Plus => seq!['+'],
            Lexeme::Minus => seq!['-'],
            Lexeme::I => seq!['i'],
            Lexeme::Equal => seq!['='],
            Lexeme::Question => seq!['?'],
            Lexeme::Number(s) => s,
            Lexeme::Name(s) => s,
        }
    }
}

/// The surface forms of a lexeme sequence, written one after another.
pub open spec fn render(ls: Seq<Lexeme>) -> Seq<char>
    decreases ls.len(),
{
    if ls.len() == 0 {
        Seq::empty()
    } else {
        ls[0].surface() + render(ls.drop_first())
    }
}

/// ASCII whitespace: space, tab, line feed, form feed, carriage return.
pub open spec fn is_space(c: char) -> bool {
    c == ' ' || c == '\t' || c == '\n' || c == '\x0C' || c == '\r'
}

/// ASCII digits.
pub open spec fn is_digit(c: char) -> bool {
    '0' <= c <= '9'
}

/// ASCII letters.
pub open spec fn is_letter(c: char) -> bool {
    ('a' <= c <= 'z') || ('A' <= c <= 'Z')
}

/// Characters that are a token by themselves.
pub open spec fn is_single(c: char) -> bool {
    c == '(' || c == ')' || c == '[' || c == ']' || c == ',' || c == ';' || c == '^' || c == '/'
        || c == '%' || c == '+' || c == '-' || c == '=' || c == '?' || c == 'i'
}

/// The token of a character that is one by itself.
pub open spec fn single_lexeme(c: char) -> Lexeme
    recommends
        is_single(c),
{
    if c == '(' {
        Lexeme::LParen
    } else if c == ')' {
        Lexeme::RParen
    } else if c == '[' {
        Lexeme::LBracket
    } else if c == ']' {
        Lexeme::RBracket
    } else if c == ',' {
        Lexeme::Comma
    } else if c == ';' {
        Lexeme::SemiColon
    } else if c == '^' {
        Lexeme::Caret
    } else if c == '/' {
        Lexeme::Slash
    } else if c == '%' {
        Lexeme::Percent
    } else if c == '+' {
        Lexeme::Plus
    } else if c == '-' {
        Lexeme::Minus
    } else if c == '=' {
        Lexeme::Equal
    } else if c == '?' {
        Lexeme::Question
    } else {
        Lexeme::I
    }
}

/// The message for a character outside the language.
pub open spec fn unsupported_message(c: char) -> Seq<char> {
    "Unsupported character: "@.push(c)
}

/// The message for a misplaced decimal point.
pub open spec fn dot_message() -> Seq<char> {
    "'.' is in the wrong position."@
}

/// What is being accumulated while the lexer looks one character ahead.
#[derive(Clone, Copy, PartialEq, Eq, Structural)]
pub enum Pending {
    Asterisk,
    Number,
    Name,
}

/// Whether the character ends what is pending: whitespace, `I`, `*` and
/// every character that is a token by itself do, except that `i` goes on
/// with a pending name.
pub open spec fn stops(c: char, pending: Pending) -> bool {
    is_space(c) || c == 'I' || c == '*' || (is_single(c) && !(c == 'i' && pending
        == Pending::Name))
}

/// Where an accumulation stops, or why it cannot.
pub enum Scan {
    Stop(int),
    Fail(Seq<char>),
}

/// Extends a pending token from position `j` of `s` for as long as the next
/// character belongs to it. `dot` tells whether a pending number already
/// holds its decimal point.
///
/// A number takes digits and one `.`; a name takes letters other than
/// `I`; an asterisk takes nothing. A `.` anywhere else and a character
/// outside the language fail, whatever was pending.
pub open spec fn scan(s: Seq<char>, j: int, pending: Pending, dot: bool) -> Scan
    decreases s.len() - j,
{
    if j < 0 || j >= s.len() {
        Scan::Stop(j)
    } else {
        let c = s[j];
        if stops(c, pending) {
            Scan::Stop(j)
        } else if c == '.' {
            if pending == Pending::Number && !dot {
                scan(s, j + 1, pending, true)
            } else {
                Scan::Fail(dot_message())
            }
        } else if is_digit(c) {
            if pending == Pending::Number {
                scan(s, j + 1, pending, dot)
            } else {
                Scan::Stop(j)
            }
        } else if is_letter(c) {
            if pending == Pending::Name {
                scan(s, j + 1, pending, dot)
            } else {
                Scan::Stop(j)
            }
        } else {
            Scan::Fail(unsupported_message(c))
        }
    }
}

/// The first position at or after `i` that holds no whitespace.
pub open spec fn skip_spaces(s: Seq<char>, i: int) -> int
    decreases s.len() - i,
{
    if 0 <= i < s.len() && is_space(s[i]) {
        skip_spaces(s, i + 1)
    } else {
        i
    }
}

/// The outcome of reading one token.
pub enum Lexed {
    /// Only whitespace was left.
    End,
    /// A token, and the position behind it.
    Token(Lexeme, int),
    Fail(Seq<char>),
}

/// Completes the token that starts at `start` once its first character has
/// shown what is pending.
pub open spec fn finish(s: Seq<char>, start: int, pending: Pending) -> Lexed {
    match pending {
        Pending::Asterisk => {
            if start + 1 < s.len() && s[start + 1] == '*' {
                Lexed::Token(Lexeme::TwoAsterisk, start + 2)
            } else {
                match scan(s, start + 1, Pending::Asterisk, false) {
                    Scan::Stop(_) => Lexed::Token(Lexeme::Asterisk, start + 1),
                    Scan::Fail(m) => Lexed::Fail(m),
                }
            }
        },
        Pending::Number => match scan(s, start + 1, Pending::Number, false) {
            Scan::Stop(j) => Lexed::Token(Lexeme::Number(s.subrange(start, j)), j),
            Scan::Fail(m) => Lexed::Fail(m),
        },
        Pending::Name => match scan(s, start + 1, Pending::Name, false) {
            Scan::Stop(j) => Lexed::Token(Lexeme::Name(s.subrange(start, j)), j),
            Scan::Fail(m) => Lexed::Fail(m),
        },
    }
}

/// Reads one token of `s` from position `i`.
///
/// Whitespace is skipped. A character that is a token by itself is taken
/// alone, so `i` is the imaginary unit where a token starts with it; `*`,
/// a digit and a letter other than `i` and `I` start a token that `finish`
/// completes; anything else fails.
pub open spec fn lex_one(s: Seq<char>, i: int) -> Lexed {
    let k = skip_spaces(s, i);
    if k < 0 || k >= s.len() {
        Lexed::End
    } else {
        let c = s[k];
        if is_single(c) {
            Lexed::Token(single_lexeme(c), k + 1)
        } else if c == '*' {
            finish(s, k, Pending::Asterisk)
        } else if is_digit(c) {
            finish(s, k, Pending::Number)
        } else if is_letter(c) && c != 'I' {
            finish(s, k, Pending::Name)
        } else {
            Lexed::Fail(unsupported_message(c))
        }
    }
}

/// All tokens of `s` from position `i`, or the first failure.
pub open spec fn lex_all(s: Seq<char>, i: int) -> Result<Seq<Lexeme>, Seq<char>>
    decreases s.len() - i,
    when 0 <= i
    via lex_all_decreases
{
    match lex_one(s, i) {
        Lexed::End => Ok(Seq::empty()),
        Lexed::Fail(m) => Err(m),
        Lexed::Token(t, n) => match lex_all(s, n) {
            Ok(rest) => Ok(seq![t] + rest),
            Err(m) => Err(m),
        },
    }
}

#[via_fn]
proof fn lex_all_decreases(s: Seq<char>, i: int) {
    lemma_lex_one_advances(s, i);
}

/// Skipping whitespace moves forward over whitespace only, and stops at
/// the end or before a character that is none.
pub proof fn lemma_skip_spaces(s: Seq<char>, i: int)
    requires
        0 <= i,
    ensures
        i <= skip_spaces(s, i),
        i <= s.len() ==> skip_spaces(s, i) <= s.len(),
        skip_spaces(s, i) < s.len() ==> !is_space(s[skip_spaces(s, i)]),
        forall|j: int| i <= j < skip_spaces(s, i) && j < s.len() ==> is_space(#[trigger] s[j]),
    decreases s.len() - i,
{
    if i < s.len() && is_space(s[i]) {
        lemma_skip_spaces(s, i + 1);
    }
}

/// A pending token stops at or after the position it is extended from,
/// inside the input.
pub proof fn lemma_scan_stop(s: Seq<char>, j: int, pending: Pending, dot: bool)
    requires
        0 <= j <= s.len(),
    ensures
        scan(s, j, pending, dot) matches Scan::Stop(e) ==> j <= e <= s.len(),
    decreases s.len() - j,
{
    if j < s.len() {
        let c = s[j];
        if stops(c, pending) {
        } else if c == '.' {
            if pending == Pending::Number && !dot {
                lemma_scan_stop(s, j + 1, pending, true);
            }
        } else if is_digit(c) {
            if pending == Pending::Number {
                lemma_scan_stop(s, j + 1, pending, dot);
            }
        } else if is_letter(c) {
            if pending == Pending::Name {
                lemma_scan_stop(s, j + 1, pending, dot);
            }
        }
    }
}

/// A token ends strictly behind the position it was read from, and inside
/// the input.
pub proof fn lemma_lex_one_advances(s: Seq<char>, i: int)
    requires
        0 <= i,
    ensures
        lex_one(s, i) matches Lexed::Token(_, n) ==> i < n <= s.len(),
{
    lemma_skip_spaces(s, i);
    let k = skip_spaces(s, i);
    if k < s.len() {
        lemma_scan_stop(s, k + 1, Pending::Number, false);
        lemma_scan_stop(s, k + 1, Pending::Name, false);
    }
}

/// Without whitespace in the way, the tokens read from position `i` are
/// written with exactly the characters from `i` to the end.
pub proof fn lemma_render_lex_all(s: Seq<char>, i: int)
    requires
        0 <= i <= s.len(),
        forall|j: int| 0 <= j < s.len() ==> !is_space(#[trigger] s[j]),
    ensures
        lex_all(s, i) matches Ok(ls) ==> render(ls) == s.subrange(i, s.len() as int),
    decreases s.len() - i,
{
    lemma_skip_spaces(s, i);
    lemma_lex_one_advances(s, i);
    assert(skip_spaces(s, i) == i);
    match lex_one(s, i) {
        Lexed::End => {
            assert(s.subrange(i, s.len() as int) =~= Seq::<char>::empty());
        },
        Lexed::Fail(_) => {},
        Lexed::Token(t, n) => {
            lemma_render_lex_all(s, n);
            if let Ok(rest) = lex_all(s, n) {
                let ls = seq![t] + rest;
                assert(ls.drop_first() =~= rest);
                assert(ls[0] == t);
                assert(t.surface() =~= s.subrange(i, n));
                assert(s.subrange(i, n) + s.subrange(n, s.len() as int) =~= s.subrange(
                    i,
                    s.len() as int,
                ));
            }
        },
    }
}

/// Lexing an input that holds no whitespace and then writing each token out
/// gives the input back, so the written form lexes to the same tokens.
pub proof fn lemma_lex_round_trip(s: Seq<char>)
    requires
        forall|j: int| 0 <= j < s.len() ==> !is_space(#[trigger] s[j]),
        lex_all(s, 0) is Ok,
    ensures
        render(lex_all(s, 0)->Ok_0) == s,
        lex_all(render(lex_all(s, 0)->Ok_0), 0) == lex_all(s, 0),
{
    lemma_render_lex_all(s, 0);
    assert(s.subrange(0, s.len() as int) =~= s);
}

/// A cursor over the characters of one input line.
pub struct Lexer {
    pub chars: Vec<char>,
    pub pos: usize,
}

impl Lexer {
    /// The input being read.
    pub open spec fn input(&self) -> Seq<char> {
        self.chars@
    }

    /// The cursor stands inside the input or at its end.
    pub open spec fn wf(&self) -> bool {
        self.pos <= self.chars.len()
    }

    /// A lexer at the beginning of `input`.
    pub fn new(input: &String) -> (lexer: Lexer)
        ensures
            lexer.wf(),
            lexer.input() == input@,
            lexer.pos == 0,
    {
        Lexer { chars: chars_of(input.as_str()), pos: 0 }
    }

    /// Reads tokens until the input is used up.
    pub fn make_token_vec(&mut self) -> (res: Result<Vec<Token>, String>)
        requires
            old(self).wf(),
        ensures
            final(self).wf(),
            final(self).input() == old(self).input(),
            match lex_all(old(self).input(), old(self).pos as int) {
                Ok(ls) => res is Ok && lexemes(res->Ok_0@) == ls,
                Err(m) => res is Err && res->Err_0@ == m,
            },
    {
        let mut vec: Vec<Token> = Vec::new();
        let ghost s = self.input();
        let ghost start = self.pos as int;
        loop
            invariant
                self.wf(),
                self.input() == s,
                start == old(self).pos,
                s == old(self).input(),
                start <= self.pos,
                match lex_all(s, self.pos as int) {
                    Ok(rest) => lex_all(s, start) == Ok::<Seq<Lexeme>, Seq<char>>(
                        lexemes(vec@) + rest,
                    ),
                    Err(m) => lex_all(s, start) == Err::<Seq<Lexeme>, Seq<char>>(m),
                },
            decreases s.len() - self.pos,
        {
            let ghost before = self.pos as int;
            proof {
                lemma_lex_one_advances(s, before);
            }
            match self.next_token() {
                Err(e) => {
                    return Err(e);
                },
                Ok(None) => {
                    assert(lexemes(vec@) + Seq::<Lexeme>::empty() =~= lexemes(vec@));
                    return Ok(vec);
                },
                Ok(Some(t)) => {
                    let ghost prev = vec@;
                    vec.push(t);
                    proof {
                        let rest = lex_all(s, self.pos as int);
                        assert(lexemes(vec@) =~= lexemes(prev) + seq![t@]);
                        if rest is Ok {
                            assert(lexemes(prev) + (seq![t@] + rest->Ok_0) =~= lexemes(vec@)
                                + rest->Ok_0);
                        }
                    }
                },
            }
        }
    }

    /// Reads the next token; `None` when only whitespace is left.
    ///
    /// On success the cursor stands behind the token.
    pub fn next_token(&mut self) -> (res: Result<Option<Token>, String>)
        requires
            old(self).wf(),
        ensures
            final(self).wf(),
            final(self).input() == old(self).input(),
            final(self).pos >= old(self).pos,
            match lex_one(old(self).input(), old(self).pos as int) {
                Lexed::End => res == Ok::<Option<Token>, String>(None) && final(self).pos
                    == old(self).input().len(),
                Lexed::Token(t, n) => res is Ok && res->Ok_0 is Some && res->Ok_0->Some_0@ == t
                    && final(self).pos == n,
                Lexed::Fail(m) => res is Err && res->Err_0@ == m,
            },
    {
        let ghost s = self.input();
        let ghost i = self.pos as int;
        proof {
            lemma_skip_spaces(s, i);
        }
        let mut c: char = ' ';
        loop
            invariant_except_break
                skip_spaces(s, self.pos as int) == skip_spaces(s, i),
            invariant
                self.wf(),
                self.input() == s,
                s == old(self).input(),
                i == old(self).pos,
                i <= self.pos,
            ensures
                self.wf(),
                self.input() == s,
                0 < self.pos <= s.len(),
                self.pos - 1 == skip_spaces(s, i),
                c == s[self.pos - 1],
                !is_space(c),
            decreases s.len() - self.pos,
        {
            match self.next() {
                None => {
                    return Ok(None);
                },
                Some(next) => {
                    if !is_ascii_space(next) {
                        c = next;
                        break;
                    }
                },
            }
        }
        let start: usize = self.pos - 1;
        assert(start == skip_spaces(s, i));
        assert(c == s[start as int]);
        if c == '(' {
            return Ok(Some(Token::LParen));
        } else if c == ')' {
            return Ok(Some(Token::RParen));
        } else if c == '[' {
            return Ok(Some(Token::LBracket));
        } else if c == ']' {
            return Ok(Some(Token::RBracket));
        } else if c == ',' {
            return Ok(Some(Token::Comma));
        } else if c == ';' {
            return Ok(Some(Token::SemiColon));
        } else if c == '^' {
            return Ok(Some(Token::Caret));
        } else if c == '/' {
            return Ok(Some(Token::Slash));
        } else if c == '%' {
            return Ok(Some(Token::Percent));
        } else if c == '+' {
            return Ok(Some(Token::Plus));
        } else if c == '-' {
            return Ok(Some(Token::Minus));
        } else if c == '=' {
            return Ok(Some(Token::Equal));
        } else if c == '?' {
            return Ok(Some(Token::Question));
        } else if c == 'i' {
            return Ok(Some(Token::I));
        }
        let pending = if c == '*' {
            Pending::Asterisk
        } else if is_ascii_digit(c) {
            Pending::Number
        } else if is_ascii_letter(c) && c != 'I' {
            Pending::Name
        } else {
            return Err(unsupported(c));
        };
        let mut dot = false;
        loop
            invariant
                self.wf(),
                self.input() == s,
                s == old(self).input(),
                i == old(self).pos,
                i <= start,
                start < self.pos,
                lex_one(s, i) == finish(s, start as int, pending),
                scan(s, self.pos as int, pending, dot) == scan(s, start + 1, pending, false),
                pending == Pending::Asterisk ==> self.pos == start + 1,
            decreases s.len() - self.pos,
        {
            let stop = match self.peek() {
                None => true,
                Some(p) => {
                    let p = *p;
                    if is_ascii_space(p) || p == 'I' || (is_single_char(p) && !(p == 'i'
                        && is_name_pending(pending))) {
                        true
                    } else if p == '*' {
                        match pending {
                            Pending::Asterisk => {
                                self.next();
                                return Ok(Some(Token::TwoAsterisk));
                            },
                            _ => true,
                        }
                    } else if p == '.' {
                        match pending {
                            Pending::Number => {
                                if dot {
                                    return Err(String::from_str("'.' is in the wrong position."));
                                }
                                self.next();
                                dot = true;
                                false
                            },
                            _ => {
                                return Err(String::from_str("'.' is in the wrong position."));
                            },
                        }
                    } else if is_ascii_digit(p) {
                        match pending {
                            Pending::Number => {
                                self.next();
                                false
                            },
                            _ => true,
                        }
                    } else if is_ascii_letter(p) {
                        match pending {
                            Pending::Name => {
                                self.next();
                                false
                            },
                            _ => true,
                        }
                    } else {
                        return Err(unsupported(p));
                    }
                },
            };
            if stop {
                proof {
                    lemma_scan_stop(s, start + 1, pending, false);
                }
                match pending {
                    Pending::Asterisk => {
                        return Ok(Some(Token::Asterisk));
                    },
                    Pending::Number => {
                        let text = string_from_chars(&self.chars, start, self.pos);
                        return Ok(Some(Token::NumString(Box::new(text))));
                    },
                    Pending::Name => {
                        let text = string_from_chars(&self.chars, start, self.pos);
                        return Ok(Some(Token::String(Box::new(text))));
                    },
                }
            }
        }
    }

    /// Takes the next character, if any.
    pub fn next(&mut self) -> (c: Option<char>)
        requires
            old(self).wf(),
        ensures
            final(self).wf(),
            final(self).input() == old(self).input(),
            old(self).pos < old(self).input().len() ==> c == Some(
                old(self).input()[old(self).pos as int],
            ) && final(self).pos == old(self).pos + 1,
            old(self).pos >= old(self).input().len() ==> c is None && final(self).pos == old(
                self,
            ).pos,
    {
        if self.pos < self.chars.len() {
            let c = self.chars[self.pos];
            self.pos += 1;
            Some(c)
        } else {
            None
        }
    }

    /// Looks at the next character without taking it.
    pub fn peek(&mut self) -> (c: Option<&char>)
        requires
            old(self).wf(),
        ensures
            *final(self) == *old(self),
            old(self).pos < old(self).input().len() ==> c == Some(
                &old(self).input()[old(self).pos as int],
            ),
            old(self).pos >= old(self).input().len() ==> c is None,
    {
        if self.pos < self.chars.len() {
            Some(&self.chars[self.pos])
        } else {
            None
        }
    }
}

/// Whether the character is ASCII whitespace.
pub fn is_ascii_space(c: char) -> (b: bool)
    ensures
        b == is_space(c),
{
    c == ' ' || c == '\t' || c == '\n' || c == '\x0C' || c == '\r'
}

/// Whether the character is an ASCII digit.
pub fn is_ascii_digit(c: char) -> (b: bool)
    ensures
        b == is_digit(c),
{
    '0' <= c && c <= '9'
}

/// Whether the character is an ASCII letter.
pub fn is_ascii_letter(c: char) -> (b: bool)
    ensures
        b == is_letter(c),
{
    ('a' <= c && c <= 'z') || ('A' <= c && c <= 'Z')
}

/// Whether the character is a token by itself.
pub fn is_single_char(c: char) -> (b: bool)
    ensures
        b == is_single(c),
{
    c == '(' || c == ')' || c == '[' || c == ']' || c == ',' || c == ';' || c == '^' || c == '/'
        || c == '%' || c == '+' || c == '-' || c == '=' || c == '?' || c == 'i'
}

fn is_name_pending(pending: Pending) -> (b: bool)
    ensures
        b == (pending == Pending::Name),
{
    match pending {
        Pending::Name => true,
        _ => false,
    }
}

fn unsupported(c: char) -> (text: String)
    ensures
        text@ == unsupported_message(c),
{
    let mut text = String::from_str("Unsupported character: ");
    push_char(&mut text, c);
    text
}

} // verus!

verus! {

/// Characters at which every pending token stops.
pub open spec fn stopper(c: char) -> bool {
    is_space(c) || c == 'I' || c == '*' || (is_single(c) && c != 'i')
}

/// A scan reads the same behind a prefix.
pub proof fn lemma_scan_shift(a: Seq<char>, r: Seq<char>, j: int, pending: Pending, dot: bool)
    requires
        0 <= j <= r.len(),
    ensures
        scan(a + r, a.len() + j, pending, dot) == match scan(r, j, pending, dot) {
            Scan::Stop(e) => Scan::Stop(a.len() + e),
            Scan::Fail(m) => Scan::Fail(m),
        },
    decreases r.len() - j,
{
    let s = a + r;
    if j < r.len() {
        assert(s[a.len() + j] == r[j]);
        let c = r[j];
        if stops(c, pending) {
        } else if c == '.' {
            if pending == Pending::Number && !dot {
                lemma_scan_shift(a, r, j + 1, pending, true);
            }
        } else if is_digit(c) {
            if pending == Pending::Number {
                lemma_scan_shift(a, r, j + 1, pending, dot);
            }
        } else if is_letter(c) {
            if pending == Pending::Name {
                lemma_scan_shift(a, r, j + 1, pending, dot);
            }
        }
    }
}

/// Skipping whitespace reads the same behind a prefix.
pub proof fn lemma_skip_spaces_shift(a: Seq<char>, r: Seq<char>, i: int)
    requires
        0 <= i <= r.len(),
    ensures
        skip_spaces(a + r, a.len() + i) == a.len() + skip_spaces(r, i),
    decreases r.len() - i,
{
    let s = a + r;
    if i < r.len() {
        assert(s[a.len() + i] == r[i]);
        if is_space(r[i]) {
            lemma_skip_spaces_shift(a, r, i + 1);
        }
    }
}

/// A step of the lexer as it is read behind a prefix of length `n`.
pub open spec fn shifted(step: Lexed, n: int) -> Lexed {
    match step {
        Lexed::End => Lexed::End,
        Lexed::Token(t, e) => Lexed::Token(t, n + e),
        Lexed::Fail(m) => Lexed::Fail(m),
    }
}

/// One token reads the same behind a prefix.
pub proof fn lemma_lex_one_shift(a: Seq<char>, r: Seq<char>, i: int)
    requires
        0 <= i <= r.len(),
    ensures
        lex_one(a + r, a.len() + i) == shifted(lex_one(r, i), a.len() as int),
{
    let s = a + r;
    let n = a.len() as int;
    lemma_skip_spaces_shift(a, r, i);
    lemma_skip_spaces(r, i);
    let k = skip_spaces(r, i);
    if k < r.len() {
        assert(s[n + k] == r[k]);
        lemma_scan_shift(a, r, k + 1, Pending::Asterisk, false);
        lemma_scan_shift(a, r, k + 1, Pending::Number, false);
        lemma_scan_shift(a, r, k + 1, Pending::Name, false);
        lemma_scan_stop(r, k + 1, Pending::Number, false);
        lemma_scan_stop(r, k + 1, Pending::Name, false);
        if k + 1 < r.len() {
            assert(s[n + k + 1] == r[k + 1]);
        }
        if let Scan::Stop(e) = scan(r, k + 1, Pending::Number, false) {
            assert(s.subrange(n + k, n + e) =~= r.subrange(k, e));
        }
        if let Scan::Stop(e) = scan(r, k + 1, Pending::Name, false) {
            assert(s.subrange(n + k, n + e) =~= r.subrange(k, e));
        }
    }
}

/// The tokens behind a prefix are the tokens of what stands there.
pub proof fn lemma_lex_all_shift(a: Seq<char>, r: Seq<char>, i: int)
    requires
        0 <= i <= r.len(),
    ensures
        lex_all(a + r, a.len() + i) == lex_all(r, i),
    decreases r.len() - i,
{
    lemma_lex_one_shift(a, r, i);
    lemma_lex_one_advances(r, i);
    if let Lexed::Token(_, e) = lex_one(r, i) {
        lemma_lex_all_shift(a, r, e);
    }
}

/// A scan that stops in a text stops at the same place when more follows,
/// if what follows begins with a character at which every token stops.
pub proof fn lemma_scan_prefix(a: Seq<char>, r: Seq<char>, j: int, pending: Pending, dot: bool)
    requires
        0 <= j <= a.len(),
        r.len() > 0,
        stopper(r[0]),
        scan(a, j, pending, dot) is Stop,
    ensures
        scan(a + r, j, pending, dot) == scan(a, j, pending, dot),
    decreases a.len() - j,
{
    let s = a + r;
    if j < a.len() {
        assert(s[j] == a[j]);
        let c = a[j];
        if stops(c, pending) {
        } else if c == '.' {
            if pending == Pending::Number && !dot {
                lemma_scan_prefix(a, r, j + 1, pending, true);
            }
        } else if is_digit(c) {
            if pending == Pending::Number {
                lemma_scan_prefix(a, r, j + 1, pending, dot);
            }
        } else if is_letter(c) {
            if pending == Pending::Name {
                lemma_scan_prefix(a, r, j + 1, pending, dot);
            }
        }
    } else {
        assert(s[j] == r[0]);
    }
}

/// Skipping whitespace in front of more text: the same place if it lies
/// in the text, and on into what follows otherwise.
pub proof fn lemma_skip_spaces_prefix(a: Seq<char>, r: Seq<char>, i: int)
    requires
        0 <= i <= a.len(),
    ensures
        skip_spaces(a, i) < a.len() ==> skip_spaces(a + r, i) == skip_spaces(a, i),
        skip_spaces(a, i) >= a.len() ==> skip_spaces(a + r, i) == skip_spaces(
            a + r,
            a.len() as int,
        ),
    decreases a.len() - i,
{
    let s = a + r;
    if i < a.len() {
        assert(s[i] == a[i]);
        if is_space(a[i]) {
            lemma_skip_spaces_prefix(a, r, i + 1);
        }
    }
}

/// The tokens of a text followed by more are the tokens of the text and
/// then the tokens of what follows, if what follows begins with a
/// character at which every token stops, and no `*` at the end of the text
/// meets a `*` behind it.
pub proof fn lemma_lex_all_concat(a: Seq<char>, r: Seq<char>, i: int)
    requires
        0 <= i <= a.len(),
        r.len() > 0,
        stopper(r[0]),
        a.len() > 0 && a.last() == '*' ==> r[0] != '*',
        lex_all(a, i) is Ok,
    ensures
        lex_all(a + r, i) == match lex_all(r, 0) {
            Ok(rest) => Ok::<Seq<Lexeme>, Seq<char>>(lex_all(a, i)->Ok_0 + rest),
            Err(m) => Err(m),
        },
    decreases a.len() - i,
{
    let s = a + r;
    lemma_skip_spaces(a, i);
    lemma_skip_spaces_prefix(a, r, i);
    lemma_lex_one_advances(a, i);
    let k = skip_spaces(a, i);
    match lex_one(a, i) {
        Lexed::End => {
            // Only whitespace is left of the text: go on behind it.
            lemma_skip_spaces(s, a.len() as int);
            lemma_skip_spaces_shift(a, r, 0);
            assert(lex_one(s, i) == lex_one(s, a.len() as int));
            lemma_lex_all_shift(a, r, 0);
            lemma_lex_one_advances(s, i);
            lemma_lex_one_advances(s, a.len() as int);
            assert(lex_all(s, i) == lex_all(s, a.len() as int));
            assert(Seq::<Lexeme>::empty() + lex_all(r, 0)->Ok_0 =~= lex_all(r, 0)->Ok_0);
        },
        Lexed::Fail(_) => {},
        Lexed::Token(t, n) => {
            assert(s[k] == a[k]);
            if k + 1 < a.len() {
                assert(s[k + 1] == a[k + 1]);
            } else {
                assert(s[k + 1] == r[0]);
                assert(a.last() == a[k]);
            }
            if a[k] == '*' {
                if !(k + 1 < a.len() && a[k + 1] == '*') {
                    lemma_scan_prefix(a, r, k + 1, Pending::Asterisk, false);
                }
            } else if is_digit(a[k]) {
                lemma_scan_prefix(a, r, k + 1, Pending::Number, false);
                lemma_scan_stop(a, k + 1, Pending::Number, false);
                assert(s.subrange(k, n) =~= a.subrange(k, n));
            } else if is_letter(a[k]) && a[k] != 'I' && !is_single(a[k]) {
                lemma_scan_prefix(a, r, k + 1, Pending::Name, false);
                lemma_scan_stop(a, k + 1, Pending::Name, false);
                assert(s.subrange(k, n) =~= a.subrange(k, n));
            }
            assert(lex_one(s, i) == Lexed::Token(t, n));
            lemma_lex_all_concat(a, r, n);
            if let Ok(rest) = lex_all(r, 0) {
                assert(seq![t] + (lex_all(a, n)->Ok_0 + rest) =~= (seq![t] + lex_all(a, n)->Ok_0)
                    + rest);
            }
        },
    }
}

} // verus!

verus! {

/// A text that ends in `*` ends in the token `*` or `**`.
pub proof fn lemma_last_asterisk(a: Seq<char>, i: int)
    requires
        0 <= i < a.len(),
        a.last() == '*',
        lex_all(a, i) is Ok,
    ensures
        lex_all(a, i)->Ok_0.len() > 0,
        lex_all(a, i)->Ok_0.last() is Asterisk || lex_all(a, i)->Ok_0.last() is TwoAsterisk,
    decreases a.len() - i,
{
    lemma_skip_spaces(a, i);
    lemma_lex_one_advances(a, i);
    let k = skip_spaces(a, i);
    // The last character is no whitespace, so a token begins before the end.
    assert(k < a.len()) by {
        if k >= a.len() {
            assert(is_space(a[a.len() - 1]));
        }
    }
    match lex_one(a, i) {
        Lexed::Token(t, n) => {
            let rest = lex_all(a, n)->Ok_0;
            let all = seq![t] + rest;
            if n < a.len() {
                lemma_last_asterisk(a, n);
                assert(all.last() == rest.last());
            } else {
                lemma_lex_one_advances(a, n);
                assert(lex_one(a, n) is End) by {
                    lemma_skip_spaces(a, n);
                }
                assert(rest =~= Seq::<Lexeme>::empty());
                assert(all.last() == t);
                lemma_scan_stop(a, k + 1, Pending::Number, false);
                lemma_scan_stop(a, k + 1, Pending::Name, false);
                if is_digit(a[k]) {
                    lemma_scan_ends_in_token(a, k + 1, Pending::Number, false);
                } else if is_letter(a[k]) {
                    lemma_scan_ends_in_token(a, k + 1, Pending::Name, false);
                }
            }
        },
        _ => {},
    }
}

/// Where a pending number or name stops behind its first character, the
/// character before is a digit, a `.` or a letter.
pub proof fn lemma_scan_ends_in_token(s: Seq<char>, j: int, pending: Pending, dot: bool)
    requires
        1 <= j <= s.len(),
        pending != Pending::Asterisk,
        is_digit(s[j - 1]) || is_letter(s[j - 1]) || s[j - 1] == '.',
    ensures
        scan(s, j, pending, dot) matches Scan::Stop(e) ==> e >= 1 && (is_digit(s[e - 1])
            || is_letter(s[e - 1]) || s[e - 1] == '.'),
    decreases s.len() - j,
{
    if j < s.len() {
        let c = s[j];
        if stops(c, pending) {
        } else if c == '.' {
            if pending == Pending::Number && !dot {
                lemma_scan_ends_in_token(s, j + 1, pending, true);
            }
        } else if is_digit(c) {
            if pending == Pending::Number {
                lemma_scan_ends_in_token(s, j + 1, pending, dot);
            }
        } else if is_letter(c) {
            if pending == Pending::Name {
                lemma_scan_ends_in_token(s, j + 1, pending, dot);
            }
        }
    }
}

} // verus!

verus! {

/// The number of `.` in a text.
pub open spec fn dots(s: Seq<char>) -> nat
    decreases s.len(),
{
    if s.len() == 0 {
        0
    } else if s.last() == '.' {
        dots(s.drop_last()) + 1
    } else {
        dots(s.drop_last())
    }
}

/// The text of a number: digits and at most one `.`, a digit first.
pub open spec fn number_text(s: Seq<char>) -> bool {
    &&& s.len() > 0
    &&& is_digit(s[0])
    &&& forall|j: int| 0 <= j < s.len() ==> is_digit(#[trigger] s[j]) || s[j] == '.'
    &&& dots(s) <= 1
}

/// The text of a name: ASCII letters without `I`, and no `i` first.
pub open spec fn name_text(s: Seq<char>) -> bool {
    &&& s.len() > 0
    &&& s[0] != 'i'
    &&& forall|j: int| 0 <= j < s.len() ==> is_letter(#[trigger] s[j]) && s[j] != 'I'
}

/// A token with text has the text of its kind.
pub open spec fn well_formed(t: Lexeme) -> bool {
    match t {
        Lexeme::Number(s) => number_text(s),
        Lexeme::Name(s) => name_text(s),
        _ => true,
    }
}

/// What has been taken of a pending token from `k` up to `j`.
pub open spec fn taken_so_far(s: Seq<char>, k: int, j: int, pending: Pending, dot: bool) -> bool {
    let part = s.subrange(k, j);
    match pending {
        Pending::Asterisk => true,
        Pending::Number => (forall|x: int| 0 <= x < part.len() ==> is_digit(#[trigger] part[x])
            || part[x] == '.') && dots(part) == if dot {
            1nat
        } else {
            0nat
        },
        Pending::Name => forall|x: int|
            0 <= x < part.len() ==> is_letter(#[trigger] part[x]) && part[x] != 'I',
    }
}

/// A scan takes only characters of the pending kind, and a second `.`
/// never.
pub proof fn lemma_scan_takes(s: Seq<char>, k: int, j: int, pending: Pending, dot: bool)
    requires
        0 <= k < j <= s.len(),
        taken_so_far(s, k, j, pending, dot),
    ensures
        scan(s, j, pending, dot) matches Scan::Stop(e) ==> j <= e <= s.len() && (taken_so_far(
            s,
            k,
            e,
            pending,
            true,
        ) || taken_so_far(s, k, e, pending, false)),
    decreases s.len() - j,
{
    if j < s.len() {
        let c = s[j];
        let more = s.subrange(k, j + 1);
        assert(more.drop_last() =~= s.subrange(k, j));
        assert(more.last() == c);
        assert forall|x: int| 0 <= x < more.len() - 1 implies more[x] == s.subrange(k, j)[x] by {}
        if stops(c, pending) {
        } else if c == '.' {
            if pending == Pending::Number && !dot {
                lemma_scan_takes(s, k, j + 1, pending, true);
            }
        } else if is_digit(c) {
            if pending == Pending::Number {
                lemma_scan_takes(s, k, j + 1, pending, dot);
            }
        } else if is_letter(c) {
            if pending == Pending::Name {
                lemma_scan_takes(s, k, j + 1, pending, dot);
            }
        }
    }
}

/// Every token that the lexer gives is well formed.
pub proof fn lemma_lex_one_well_formed(s: Seq<char>, i: int)
    requires
        0 <= i,
    ensures
        lex_one(s, i) matches Lexed::Token(t, _) ==> well_formed(t),
{
    lemma_skip_spaces(s, i);
    let k = skip_spaces(s, i);
    if k < s.len() {
        let c = s[k];
        let first = s.subrange(k, k + 1);
        assert(first.drop_last() =~= Seq::<char>::empty());
        assert(first.last() == c);
        assert(dots(first.drop_last()) == 0);
        if !is_single(c) && c != '*' {
            if is_digit(c) {
                lemma_scan_takes(s, k, k + 1, Pending::Number, false);
                if let Scan::Stop(e) = scan(s, k + 1, Pending::Number, false) {
                    assert(s.subrange(k, e)[0] == c);
                }
            } else if is_letter(c) && c != 'I' {
                lemma_scan_takes(s, k, k + 1, Pending::Name, false);
                if let Scan::Stop(e) = scan(s, k + 1, Pending::Name, false) {
                    assert(s.subrange(k, e)[0] == c);
                }
            }
        }
    }
}

/// Every token of a text is well formed.
pub proof fn lemma_lex_all_well_formed(s: Seq<char>, i: int)
    requires
        0 <= i,
    ensures
        lex_all(s, i) matches Ok(ls) ==> forall|x: int|
            0 <= x < ls.len() ==> well_formed(#[trigger] ls[x]),
    decreases s.len() - i,
{
    lemma_lex_one_well_formed(s, i);
    lemma_lex_one_advances(s, i);
    if let Lexed::Token(t, n) = lex_one(s, i) {
        lemma_lex_all_well_formed(s, n);
        if let Ok(rest) = lex_all(s, n) {
            let ls = seq![t] + rest;
            assert forall|x: int| 0 <= x < ls.len() implies well_formed(#[trigger] ls[x]) by {
                if x > 0 {
                    assert(ls[x] == rest[x - 1]);
                }
            }
        }
    }
}

} // verus!
