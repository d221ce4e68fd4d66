//! The scanner: turns source text into tokens, one call at a time.
use crate::location::Loc;
use crate::syntax::{
    in_class, integer_part_end, keyword_kind, lemma_keyword_initials, lemma_line_comment,
    lemma_loc_at_bounds, lemma_scan_progress, loc_is, mantissa_end, number_end, number_is_float,
    opens_block_comment, block_comment_end, run_end, scan_at, scan_next, string_end, trivia_end, CharClass, Lexed,
};
pub use crate::syntax::TokenKind;
use crate::utils::{is_alpha, is_alpha_spec, is_alphanumeric, is_digit, is_digit_spec, is_whitespace};
use vstd::prelude::*;
use vstd::std_specs::iter::IteratorSpec;

verus! {

/// Reads tokens from a source text.
pub struct Scanner<'a> {
    source: &'a str,
    /// The source is all ASCII, so slicing by character index is cheap.
    ascii: bool,
    chars: Vec<char>,
    start: usize,
    current: usize,
    start_loc: Loc,
    current_loc: Loc,
}

/// A classified piece of the source text, with the position of its first
/// character.
#[derive(Copy, Clone, PartialEq, Eq, Debug)]
pub struct Token<'a> {
    pub kind: TokenKind,
    pub lexeme: &'a str,
    pub loc: Loc,
}

/// A lexical error, with the position where it was found.
#[derive(Copy, Clone, PartialEq, Eq, Debug, Structural)]
pub enum ScanningError {
    UnrecognizedCharacter(char, Loc),
    UnterminatedString(Loc),
    UnterminatedBlockComment(Loc),
}

/// `t` is the token that `kind` and `[start, end)` describe in `s`.
pub open spec fn token_is(t: Token, s: Seq<char>, kind: TokenKind, start: int, end: int) -> bool {
    t.kind == kind && t.lexeme@ == s.subrange(start, end) && loc_is(t.loc, s, start)
}

/// `r` is what reading one token from position `p` of `s` yields.
pub open spec fn scanned(r: Result<Token, ScanningError>, s: Seq<char>, p: int) -> bool {
    match scan_at(s, p) {
        Lexed::Token { kind, start, end } => r is Ok && token_is(r->Ok_0, s, kind, start, end),
        Lexed::Unrecognized { at } => match r {
            Err(ScanningError::UnrecognizedCharacter(c, loc)) => c == s[at] && loc_is(loc, s, at),
            _ => false,
        },
        Lexed::UnterminatedString => match r {
            Err(ScanningError::UnterminatedString(loc)) => loc_is(loc, s, s.len() as int),
            _ => false,
        },
        Lexed::UnterminatedBlockComment => match r {
            Err(ScanningError::UnterminatedBlockComment(loc)) => loc_is(loc, s, s.len() as int),
            _ => false,
        },
    }
}

/// The character at `i`, if `i` is inside `s`.
pub open spec fn char_at(s: Seq<char>, i: int) -> Option<char> {
    if 0 <= i < s.len() {
        Some(s[i])
    } else {
        None
    }
}

impl<'a> Scanner<'a> {
    /// The source text.
    pub closed spec fn text(&self) -> Seq<char> {
        self.chars@
    }

    /// How many characters have been read.
    pub closed spec fn position(&self) -> int {
        self.current as int
    }

    /// The characters are the source's, the cursor is inside them, and the
    /// two locations are those of the token start and of the cursor.
    pub closed spec fn wf(&self) -> bool {
        &&& self.chars@ == self.source@
        &&& self.ascii == self.source.is_ascii()
        &&& self.start <= self.current <= self.chars.len()
        &&& loc_is(self.current_loc, self.chars@, self.current as int)
        &&& loc_is(self.start_loc, self.chars@, self.start as int)
    }

    /// Only the cursor and its location differ.
    closed spec fn same_token_start(&self, o: &Self) -> bool {
        &&& self.source == o.source
        &&& self.ascii == o.ascii
        &&& self.chars@ == o.chars@
        &&& self.start == o.start
        &&& self.start_loc == o.start_loc
    }

    pub fn new(source: &'a str) -> (r: Scanner<'a>)
        ensures
            r.wf(),
            r.text() == source@,
            r.position() == 0,
    {
        let mut chars: Vec<char> = Vec::new();
        let mut it = source.chars();
        loop
            invariant
                chars@ + it.remaining() == source@,
                it.decrease() is Some,
            ensures
                chars@ == source@,
            decreases it.decrease()->0,
        {
            match it.next() {
                Some(ch) => chars.push(ch),
                None => break,
            }
        }
        Scanner {
            source,
            ascii: source.is_ascii(),
            chars,
            start: 0,
            current: 0,
            start_loc: Loc::new(0, 0),
            current_loc: Loc::new(0, 0),
        }
    }

    /// Reads the next token, after whitespace and comments. At the end of
    /// the text the token is `EOF`, with an empty lexeme.
    pub fn scan_token(&mut self) -> (r: Result<Token<'a>, ScanningError>)
        requires
            old(self).wf(),
        ensures
            final(self).wf(),
            final(self).text() == old(self).text(),
            final(self).position() == scan_next(old(self).text(), old(self).position()),
            scanned(r, old(self).text(), old(self).position()),
    {
        match self.skip_whitespace() {
            Ok(()) => {},
            Err(e) => return Err(e),
        }
        self.start = self.current;
        self.start_loc = self.current_loc;
        let character = match self.advance() {
            Some(ch) => ch,
            None => return Ok(self.make_token(TokenKind::EOF)),
        };
        let kind = match character {
            '(' => TokenKind::LeftParen,
            ')' => TokenKind::RightParen,
            '{' => TokenKind::LeftBrace,
            '}' => TokenKind::RightBrace,
            '[' => TokenKind::LeftBracket,
            ']' => TokenKind::RightBracket,
            ',' => TokenKind::Comma,
            '.' => TokenKind::Dot,
            '?' => TokenKind::Question,
            ':' => TokenKind::Colon,
            ';' => TokenKind::Semicolon,
            '-' => {
                if self.matches('=') {
                    TokenKind::MinusEqual
                } else if self.matches('-') {
                    TokenKind::MinusMinus
                } else {
                    TokenKind::Minus
                }
            },
            '+' => {
                if self.matches('=') {
                    TokenKind::PlusEqual
                } else if self.matches('+') {
                    TokenKind::PlusPlus
                } else {
                    TokenKind::Plus
                }
            },
            '*' => if self.matches('=') {
                TokenKind::StarEqual
            } else {
                TokenKind::Star
            },
            '/' => if self.matches('=') {
                TokenKind::SlashEqual
            } else {
                TokenKind::Slash
            },
            '%' => if self.matches('=') {
                TokenKind::PercentEqual
            } else {
                TokenKind::Percent
            },
            '!' => if self.matches('=') {
                TokenKind::BangEqual
            } else {
                TokenKind::Bang
            },
            '=' => if self.matches('=') {
                TokenKind::EqualEqual
            } else {
                TokenKind::Equal
            },
            '<' => if self.matches('=') {
                TokenKind::LessEqual
            } else {
                TokenKind::Less
            },
            '>' => if self.matches('=') {
                TokenKind::GreaterEqual
            } else {
                TokenKind::Greater
            },
            '"' => return self.recognize_string(),
            ch => {
                if is_digit(ch) {
                    return Ok(self.recognize_number());
                } else if is_alpha(ch) {
                    return Ok(self.recognize_identifier());
                } else {
                    return Err(self.unrecognized_character(ch));
                }
            },
        };
        Ok(self.make_token(kind))
    }

    /// Reads one character, moving the location past it.
    fn advance(&mut self) -> (r: Option<char>)
        requires
            old(self).wf(),
        ensures
            final(self).wf(),
            final(self).same_token_start(old(self)),
            r == char_at(old(self).chars@, old(self).current as int),
            final(self).current == if r is Some {
                old(self).current + 1
            } else {
                old(self).current as int
            },
    {
        if self.current < self.chars.len() {
            let ch = self.chars[self.current];
            proof {
                lemma_loc_at_bounds(self.chars@, self.current as int);
            }
            if ch == '\n' {
                self.current_loc.new_line();
            } else {
                self.current_loc.advance();
            }
            self.current += 1;
            Some(ch)
        } else {
            None
        }
    }

    fn peek(&self) -> (r: Option<char>)
        requires
            self.wf(),
        ensures
            r == char_at(self.chars@, self.current as int),
    {
        if self.current < self.chars.len() {
            Some(self.chars[self.current])
        } else {
            None
        }
    }

    fn peek_next(&self) -> (r: Option<char>)
        requires
            self.wf(),
        ensures
            r == char_at(self.chars@, self.current + 1),
    {
        if self.current < self.chars.len() && self.current + 1 < self.chars.len() {
            Some(self.chars[self.current + 1])
        } else {
            None
        }
    }

    /// Reads the next character when it is `expected`.
    fn matches(&mut self, expected: char) -> (r: bool)
        requires
            old(self).wf(),
        ensures
            final(self).wf(),
            final(self).same_token_start(old(self)),
            r == (char_at(old(self).chars@, old(self).current as int) == Some(expected)),
            final(self).current == old(self).current + if r {
                1int
            } else {
                0int
            },
    {
        if self.current < self.chars.len() && self.chars[self.current] == expected {
            self.advance();
            true
        } else {
            false
        }
    }

    /// Reads the longest run of characters of `class`.
    fn advance_while(&mut self, class: CharClass)
        requires
            old(self).wf(),
        ensures
            final(self).wf(),
            final(self).same_token_start(old(self)),
            final(self).current == run_end(old(self).chars@, old(self).current as int, class),
            final(self).current >= old(self).current,
    {
        while self.current < self.chars.len() && class_contains(class, self.chars[self.current])
            invariant
                self.wf(),
                self.same_token_start(old(self)),
                self.current >= old(self).current,
                run_end(self.chars@, self.current as int, class) == run_end(
                    old(self).chars@,
                    old(self).current as int,
                    class,
                ),
            decreases self.chars.len() - self.current,
        {
            self.advance();
        }
    }

    /// The text of the token being read.
    fn get_lexeme(&self) -> (r: &'a str)
        requires
            self.wf(),
        ensures
            r@ == self.chars@.subrange(self.start as int, self.current as int),
    {
        if self.ascii {
            self.source.substring_ascii(self.start, self.current)
        } else {
            self.source.substring_char(self.start, self.current)
        }
    }

    fn make_token(&self, kind: TokenKind) -> (r: Token<'a>)
        requires
            self.wf(),
        ensures
            token_is(r, self.chars@, kind, self.start as int, self.current as int),
    {
        Token { kind, lexeme: self.get_lexeme(), loc: self.start_loc }
    }

    /// Reads the rest of a string literal whose opening quote was just read.
    fn recognize_string(&mut self) -> (r: Result<Token<'a>, ScanningError>)
        requires
            old(self).wf(),
            old(self).current == old(self).start + 1,
        ensures
            final(self).wf(),
            final(self).same_token_start(old(self)),
            match string_end(old(self).chars@, old(self).current as int) {
                Some(end) => final(self).current == end && r is Ok && token_is(
                    r->Ok_0,
                    old(self).chars@,
                    TokenKind::Str,
                    old(self).start as int,
                    end,
                ),
                None => final(self).current == old(self).chars.len() && match r {
                    Err(ScanningError::UnterminatedString(loc)) => loc_is(
                        loc,
                        old(self).chars@,
                        old(self).chars.len() as int,
                    ),
                    _ => false,
                },
            },
    {
        let ghost s = self.chars@;
        let ghost first = self.current as int;
        loop
            invariant
                self.wf(),
                self.same_token_start(old(self)),
                s == old(self).chars@,
                first == old(self).current,
                first <= self.current,
                string_end(s, self.current as int) == string_end(s, first),
            ensures
                self.wf(),
                self.same_token_start(old(self)),
                string_end(s, self.current as int) == string_end(s, first),
                char_at(s, self.current as int) is None || char_at(s, self.current as int) == Some('"'),
            decreases self.chars.len() - self.current,
        {
            match self.peek() {
                None => break,
                Some('"') => break,
                Some('\\') => {
                    self.advance();
                    self.advance();
                },
                Some(_) => {
                    self.advance();
                },
            }
        }
        if self.advance().is_none() {
            return Err(self.unterminated_string());
        }
        Ok(self.make_token(TokenKind::Str))
    }

    /// Reads the rest of a number whose first digit was just read.
    fn recognize_number(&mut self) -> (r: Token<'a>)
        requires
            old(self).wf(),
            old(self).current == old(self).start + 1,
            is_digit_spec(old(self).chars@[old(self).start as int]),
        ensures
            final(self).wf(),
            final(self).same_token_start(old(self)),
            final(self).current == number_end(old(self).chars@, old(self).start as int),
            token_is(
                r,
                old(self).chars@,
                if number_is_float(old(self).chars@, old(self).start as int) {
                    TokenKind::Float
                } else {
                    TokenKind::Integer
                },
                old(self).start as int,
                final(self).current as int,
            ),
    {
        let ghost s = self.chars@;
        let ghost i = self.start as int;
        self.advance_while(CharClass::Digit);
        assert(self.current == integer_part_end(s, i));
        let mut is_float = false;
        match (self.peek(), self.peek_next()) {
            (Some('.'), Some(ch)) => {
                if is_digit(ch) {
                    self.advance();
                    self.advance_while(CharClass::Digit);
                    is_float = true;
                }
            },
            _ => {},
        }
        assert(self.current == mantissa_end(s, i));
        if self.matches('e') || self.matches('E') {
            is_float = true;
            if !self.matches('+') {
                self.matches('-');
            }
            self.advance_while(CharClass::Digit);
        }
        let kind = if is_float {
            TokenKind::Float
        } else {
            TokenKind::Integer
        };
        self.make_token(kind)
    }

    /// Reads the rest of an identifier or keyword whose first character was
    /// just read.
    fn recognize_identifier(&mut self) -> (r: Token<'a>)
        requires
            old(self).wf(),
            old(self).current == old(self).start + 1,
            is_alpha_spec(old(self).chars@[old(self).start as int]),
        ensures
            final(self).wf(),
            final(self).same_token_start(old(self)),
            final(self).current == run_end(
                old(self).chars@,
                old(self).start as int,
                CharClass::Alphanumeric,
            ),
            token_is(
                r,
                old(self).chars@,
                keyword_kind(old(self).chars@.subrange(old(self).start as int, final(self).current as int)),
                old(self).start as int,
                final(self).current as int,
            ),
    {
        self.advance_while(CharClass::Alphanumeric);
        let kind = self.identifier_kind();
        self.make_token(kind)
    }

    /// Tells a keyword from an identifier by its first letters.
    fn identifier_kind(&self) -> (r: TokenKind)
        requires
            self.wf(),
            self.start < self.current,
        ensures
            r == keyword_kind(self.chars@.subrange(self.start as int, self.current as int)),
    {
        let first = self.chars[self.start];
        let second = if self.start + 1 < self.current {
            Some(self.chars[self.start + 1])
        } else {
            None
        };
        let from = self.start;
        proof {
            lemma_keyword_initials();
        }
        match first {
            'a' => self.check_keyword(from, &['a', 'n', 'd'], TokenKind::And),
            'b' => self.check_keyword(from, &['b', 'r', 'e', 'a', 'k'], TokenKind::Break),
            'c' => match second {
                Some('l') => self.check_keyword(from, &['c', 'l', 'a', 's', 's'], TokenKind::Class),
                Some('o') => self.check_keyword(
                    from,
                    &['c', 'o', 'n', 't', 'i', 'n', 'u', 'e'],
                    TokenKind::Continue,
                ),
                _ => TokenKind::Identifier,
            },
            'e' => self.check_keyword(from, &['e', 'l', 's', 'e'], TokenKind::Else),
            'f' => match second {
                Some('a') => self.check_keyword(from, &['f', 'a', 'l', 's', 'e'], TokenKind::False),
                Some('o') => self.check_keyword(from, &['f', 'o', 'r'], TokenKind::For),
                Some('u') => self.check_keyword(from, &['f', 'u', 'n'], TokenKind::Fun),
                _ => TokenKind::Identifier,
            },
            'i' => self.check_keyword(from, &['i', 'f'], TokenKind::If),
            'n' => self.check_keyword(from, &['n', 'i', 'l'], TokenKind::Nil),
            'o' => self.check_keyword(from, &['o', 'r'], TokenKind::Or),
            'p' => self.check_keyword(from, &['p', 'r', 'i', 'n', 't'], TokenKind::Print),
            'r' => self.check_keyword(from, &['r', 'e', 't', 'u', 'r', 'n'], TokenKind::Return),
            's' => self.check_keyword(from, &['s', 'u', 'p', 'e', 'r'], TokenKind::Super),
            't' => match second {
                Some('h') => self.check_keyword(from, &['t', 'h', 'i', 's'], TokenKind::This),
                Some('r') => self.check_keyword(from, &['t', 'r', 'u', 'e'], TokenKind::True),
                _ => TokenKind::Identifier,
            },
            'v' => self.check_keyword(from, &['v', 'a', 'r'], TokenKind::Var),
            'w' => self.check_keyword(from, &['w', 'h', 'i', 'l', 'e'], TokenKind::While),
            _ => TokenKind::Identifier,
        }
    }

    /// `kind` when the lexeme from `from` on is `expected`, else `Identifier`.
    fn check_keyword(&self, from: usize, expected: &[char], kind: TokenKind) -> (r: TokenKind)
        requires
            self.wf(),
            self.start <= from <= self.current,
        ensures
            r == if self.chars@.subrange(from as int, self.current as int) == expected@ {
                kind
            } else {
                TokenKind::Identifier
            },
    {
        let n = self.current - from;
        if n != expected.len() {
            return TokenKind::Identifier;
        }
        let mut k: usize = 0;
        while k < n
            invariant
                self.wf(),
                n == expected@.len(),
                from + n == self.current,
                k <= n,
                forall|j: int| 0 <= j < k ==> self.chars@[from + j] == expected@[j],
            decreases n - k,
        {
            if self.chars[from + k] != expected[k] {
                assert(self.chars@.subrange(from as int, self.current as int)[k as int]
                    != expected@[k as int]);
                return TokenKind::Identifier;
            }
            k += 1;
        }
        assert(self.chars@.subrange(from as int, self.current as int) =~= expected@);
        kind
    }

    /// Skips whitespace and comments.
    fn skip_whitespace(&mut self) -> (r: Result<(), ScanningError>)
        requires
            old(self).wf(),
        ensures
            final(self).wf(),
            final(self).chars@ == old(self).chars@,
            final(self).source == old(self).source,
            match r {
                Ok(()) => trivia_end(old(self).chars@, old(self).current as int, 0, false) == Some(
                    final(self).current as int,
                ),
                Err(e) => trivia_end(old(self).chars@, old(self).current as int, 0, false) is None
                    && final(self).current == final(self).chars.len() && match e {
                    ScanningError::UnterminatedBlockComment(loc) => loc_is(
                        loc,
                        old(self).chars@,
                        old(self).chars.len() as int,
                    ),
                    _ => false,
                },
            },
    {
        let ghost s = self.chars@;
        let ghost p = self.current as int;
        loop
            invariant
                self.wf(),
                self.chars@ == s,
                s == old(self).chars@,
                p == old(self).current,
                self.source == old(self).source,
                trivia_end(s, self.current as int, 0, false) == trivia_end(s, p, 0, false),
            decreases self.chars.len() - self.current,
        {
            let ch = match self.peek() {
                Some(ch) => ch,
                None => return Ok(()),
            };
            let next = self.peek_next();
            if ch == '/' && next == Some('/') {
                proof {
                    lemma_line_comment(s, self.current + 2);
                }
                self.advance();
                self.advance();
                self.advance_while(CharClass::NotNewline);
            } else if ch == '/' && next == Some('*') {
                match self.skip_block_comment() {
                    Ok(()) => {},
                    Err(e) => return Err(e),
                }
            } else if is_whitespace(ch) {
                self.advance();
            } else {
                return Ok(());
            }
        }
    }

    /// Skips a block comment that starts at the cursor, with the comments
    /// nested in it.
    fn skip_block_comment(&mut self) -> (r: Result<(), ScanningError>)
        requires
            old(self).wf(),
            opens_block_comment(old(self).chars@, old(self).current as int),
        ensures
            final(self).wf(),
            final(self).chars@ == old(self).chars@,
            final(self).source == old(self).source,
            match block_comment_end(old(self).chars@, old(self).current + 2, 1) {
                Some(end) => r is Ok && final(self).current == end,
                None => r is Err,
            },
            match r {
                Ok(()) => final(self).current > old(self).current && trivia_end(
                    old(self).chars@,
                    final(self).current as int,
                    0,
                    false,
                ) == trivia_end(old(self).chars@, old(self).current as int, 0, false),
                Err(e) => trivia_end(old(self).chars@, old(self).current as int, 0, false) is None
                    && final(self).current == final(self).chars.len() && match e {
                    ScanningError::UnterminatedBlockComment(loc) => loc_is(
                        loc,
                        old(self).chars@,
                        old(self).chars.len() as int,
                    ),
                    _ => false,
                },
            },
    {
        let ghost s = self.chars@;
        let ghost p = self.current as int;
        self.advance();
        self.advance();
        let mut depth: usize = 1;
        while depth > 0
            invariant
                self.wf(),
                self.chars@ == s,
                s == old(self).chars@,
                p == old(self).current,
                self.source == old(self).source,
                self.current >= p + 2,
                depth <= self.current,
                if depth > 0 {
                    block_comment_end(s, self.current as int, depth as nat) == block_comment_end(
                        s,
                        p + 2,
                        1,
                    )
                } else {
                    block_comment_end(s, p + 2, 1) == Some(self.current as int)
                },
                trivia_end(s, self.current as int, depth as nat, false) == trivia_end(
                    s,
                    p,
                    0,
                    false,
                ),
            decreases self.chars.len() - self.current,
        {
            let ch = match self.peek() {
                Some(ch) => ch,
                None => return Err(self.unterminated_block_comment()),
            };
            let next = self.peek_next();
            if ch == '/' && next == Some('*') {
                self.advance();
                self.advance();
                depth += 1;
            } else if ch == '*' && next == Some('/') {
                self.advance();
                self.advance();
                depth -= 1;
            } else {
                self.advance();
            }
        }
        Ok(())
    }

    fn unrecognized_character(&self, character: char) -> (r: ScanningError)
        ensures
            r == ScanningError::UnrecognizedCharacter(character, self.start_loc),
    {
        ScanningError::UnrecognizedCharacter(character, self.start_loc)
    }

    fn unterminated_string(&self) -> (r: ScanningError)
        ensures
            r == ScanningError::UnterminatedString(self.current_loc),
    {
        ScanningError::UnterminatedString(self.current_loc)
    }

    fn unterminated_block_comment(&self) -> (r: ScanningError)
        ensures
            r == ScanningError::UnterminatedBlockComment(self.current_loc),
    {
        ScanningError::UnterminatedBlockComment(self.current_loc)
    }
}

/// Whether `c` belongs to `class`.
fn class_contains(class: CharClass, c: char) -> (r: bool)
    ensures
        r == in_class(class, c),
{
    match class {
        CharClass::Digit => is_digit(c),
        CharClass::Alphanumeric => is_alphanumeric(c),
        CharClass::NotNewline => c != '\n',
    }
}

/// Where the scanner stands after reading `n` tokens of `s` from its start.
pub open spec fn position_after(s: Seq<char>, n: nat) -> int
    decreases n,
{
    if n == 0 {
        0
    } else {
        scan_next(s, position_after(s, (n - 1) as nat))
    }
}

/// The first `n` tokens of `s` are read without error, and none is `EOF`.
pub open spec fn reads_tokens(s: Seq<char>, n: nat) -> bool {
    forall|k: nat|
        k < n ==> match scan_at(s, #[trigger] position_after(s, k)) {
            Lexed::Token { kind, .. } => kind != TokenKind::EOF,
            _ => false,
        }
}

/// Reading `s` token by token stops on the error `e`.
pub open spec fn scan_fails_with(s: Seq<char>, e: ScanningError) -> bool {
    exists|n: nat| reads_tokens(s, n) && #[trigger] scanned(Err(e), s, position_after(s, n))
}

/// Reading `s` token by token reaches `EOF` without error.
pub open spec fn scans_to_end(s: Seq<char>) -> bool {
    exists|n: nat|
        reads_tokens(s, n) && match scan_at(s, #[trigger] position_after(s, n)) {
            Lexed::Token { kind, .. } => kind == TokenKind::EOF,
            _ => false,
        }
}

/// Reads every token of `source`, up to and including `EOF`, or up to the
/// first lexical error.
pub fn tokenize<'a>(source: &'a str) -> (r: Result<Vec<Token<'a>>, ScanningError>)
    ensures
        match r {
            Ok(tokens) => {
                &&& tokens.len() >= 1
                &&& forall|k: int|
                    0 <= k < tokens.len() ==> scanned(
                        Ok(#[trigger] tokens@[k]),
                        source@,
                        position_after(source@, k as nat),
                    )
                &&& forall|k: int| 0 <= k < tokens.len() - 1 ==> #[trigger] tokens@[k].kind != TokenKind::EOF
                &&& tokens@.last().kind == TokenKind::EOF
                &&& loc_is(tokens@.last().loc, source@, source@.len() as int)
                &&& scans_to_end(source@)
            },
            Err(e) => scan_fails_with(source@, e),
        },
{
    let ghost s = source@;
    let mut scanner = Scanner::new(source);
    let mut tokens: Vec<Token<'a>> = Vec::new();
    loop
        invariant
            s == source@,
            scanner.wf(),
            scanner.text() == s,
            scanner.position() == position_after(s, tokens.len() as nat),
            0 <= scanner.position() <= s.len(),
            forall|k: int|
                0 <= k < tokens.len() ==> scanned(
                    Ok(#[trigger] tokens@[k]),
                    s,
                    position_after(s, k as nat),
                ),
            forall|k: int| 0 <= k < tokens.len() ==> #[trigger] tokens@[k].kind != TokenKind::EOF,
            reads_tokens(s, tokens.len() as nat),
        decreases s.len() - scanner.position(),
    {
        let ghost p = scanner.position();
        proof {
            lemma_scan_progress(s, p);
        }
        let ghost n = tokens.len() as nat;
        let token = match scanner.scan_token() {
            Ok(t) => t,
            Err(e) => {
                assert(scanned(Err(e), s, position_after(s, n)));
                return Err(e);
            },
        };
        tokens.push(token);
        if token.kind == TokenKind::EOF {
            assert(scan_at(s, position_after(s, n)) matches Lexed::Token { kind, .. } && kind
                == TokenKind::EOF);
            return Ok(tokens);
        }
        assert(reads_tokens(s, n + 1)) by {
            assert forall|k: nat| k < n + 1 implies match scan_at(s, #[trigger] position_after(s, k)) {
                Lexed::Token { kind, .. } => kind != TokenKind::EOF,
                _ => false,
            } by {
                if k < n {
                } else {
                    assert(tokens@[k as int] == token);
                }
            }
        }
    }
}

} // verus!
