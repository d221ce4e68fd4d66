//! The lexical grammar, stated over sequences of characters.
use crate::location::Loc;
use crate::utils::{is_alpha_spec, is_alphanumeric_spec, is_digit_spec, is_whitespace_spec};
use vstd::prelude::*;

verus! {

/// The kinds of token the scanner produces.
#[derive(Copy, Clone, PartialEq, Eq, Debug, Structural)]
pub enum TokenKind {
    // Single-character tokens
    LeftParen,
    RightParen,
    LeftBrace,
    RightBrace,
    LeftBracket,
    RightBracket,
    Comma,
    Dot,
    Question,
    Colon,
    Semicolon,
    // One or two character tokens
    Minus,
    MinusEqual,
    MinusMinus,
    Plus,
    PlusEqual,
    PlusPlus,
    Slash,
    SlashEqual,
    Star,
    StarEqual,
    Percent,
    PercentEqual,
    Bang,
    BangEqual,
    Equal,
    EqualEqual,
    Greater,
    GreaterEqual,
    Less,
    LessEqual,
    // Literals
    Identifier,
    Str,
    Integer,
    Float,
    // Keywords
    And,
    Break,
    Class,
    Continue,
    Else,
    False,
    Fun,
    For,
    If,
    Nil,
    Or,
    Print,
    Return,
    Super,
    This,
    True,
    Var,
    While,
    EOF,
}

/// Line and column reached after reading the first `i` characters of `s`
/// from line 0, column 0: a newline moves to column 0 of the next line,
/// any other character moves one column right.
pub open spec fn loc_at(s: Seq<char>, i: int) -> (int, int)
    decreases i,
{
    if i <= 0 {
        (0, 0)
    } else {
        let (line, column) = loc_at(s, i - 1);
        if s[i - 1] == '\n' {
            (line + 1, 0)
        } else {
            (line, column + 1)
        }
    }
}

/// `loc` is the position of the `i`-th character of `s`.
pub open spec fn loc_is(loc: Loc, s: Seq<char>, i: int) -> bool {
    loc.line == loc_at(s, i).0 && loc.column == loc_at(s, i).1
}

/// The number of newlines among the first `i` characters of `s`.
pub open spec fn newlines_before(s: Seq<char>, i: int) -> int
    decreases i,
{
    if i <= 0 {
        0
    } else {
        newlines_before(s, i - 1) + if s[i - 1] == '\n' {
            1int
        } else {
            0int
        }
    }
}

/// Where the line holding position `i` starts: just past the last newline
/// before `i`, or 0.
pub open spec fn line_start(s: Seq<char>, i: int) -> int
    decreases i,
{
    if i <= 0 {
        0
    } else if s[i - 1] == '\n' {
        i
    } else {
        line_start(s, i - 1)
    }
}

pub open spec fn opens_line_comment(s: Seq<char>, i: int) -> bool {
    0 <= i && i + 1 < s.len() && s[i] == '/' && s[i + 1] == '/'
}

pub open spec fn opens_block_comment(s: Seq<char>, i: int) -> bool {
    0 <= i && i + 1 < s.len() && s[i] == '/' && s[i + 1] == '*'
}

pub open spec fn closes_block_comment(s: Seq<char>, i: int) -> bool {
    0 <= i && i + 1 < s.len() && s[i] == '*' && s[i + 1] == '/'
}

/// Skipping whitespace and comments from `i`, inside `depth` nested block
/// comments, or inside a line comment when `in_line`: the position of the
/// next token, or `None` when the input ends inside a block comment.
pub open spec fn trivia_end(s: Seq<char>, i: int, depth: nat, in_line: bool) -> Option<int>
    decreases s.len() - i,
{
    if i >= s.len() {
        if depth == 0 {
            Some(i)
        } else {
            None
        }
    } else if in_line {
        trivia_end(s, i + 1, 0, s[i] != '\n')
    } else if depth > 0 {
        if opens_block_comment(s, i) {
            trivia_end(s, i + 2, depth + 1, false)
        } else if closes_block_comment(s, i) {
            trivia_end(s, i + 2, (depth - 1) as nat, false)
        } else {
            trivia_end(s, i + 1, depth, false)
        }
    } else if opens_line_comment(s, i) {
        trivia_end(s, i + 2, 0, true)
    } else if opens_block_comment(s, i) {
        trivia_end(s, i + 2, 1, false)
    } else if is_whitespace_spec(s[i]) {
        trivia_end(s, i + 1, 0, false)
    } else {
        Some(i)
    }
}

/// The end of a block comment read from `i`, inside `depth` nested
/// comments: the position just past the `*/` that closes the outermost one,
/// or `None` when the input ends first.
pub open spec fn block_comment_end(s: Seq<char>, i: int, depth: nat) -> Option<int>
    decreases s.len() - i,
{
    if i < 0 || i >= s.len() {
        None
    } else if opens_block_comment(s, i) {
        block_comment_end(s, i + 2, depth + 1)
    } else if closes_block_comment(s, i) {
        if depth <= 1 {
            Some(i + 2)
        } else {
            block_comment_end(s, i + 2, (depth - 1) as nat)
        }
    } else {
        block_comment_end(s, i + 1, depth)
    }
}

/// A class of characters that the scanner reads a maximal run of.
#[derive(Copy, Clone, PartialEq, Eq, Debug, Structural)]
pub enum CharClass {
    Digit,
    Alphanumeric,
    NotNewline,
}

pub open spec fn in_class(class: CharClass, c: char) -> bool {
    match class {
        CharClass::Digit => is_digit_spec(c),
        CharClass::Alphanumeric => is_alphanumeric_spec(c),
        CharClass::NotNewline => c != '\n',
    }
}

/// The end of the maximal run of `class` characters that starts at `i`.
pub open spec fn run_end(s: Seq<char>, i: int, class: CharClass) -> int
    decreases s.len() - i,
{
    if 0 <= i < s.len() && in_class(class, s[i]) {
        run_end(s, i + 1, class)
    } else {
        i
    }
}

/// Punctuation and operators of one character.
pub open spec fn one_char_kind(c: char) -> Option<TokenKind> {
    match c {
        '(' => Some(TokenKind::LeftParen),
        ')' => Some(TokenKind::RightParen),
        '{' => Some(TokenKind::LeftBrace),
        '}' => Some(TokenKind::RightBrace),
        '[' => Some(TokenKind::LeftBracket),
        ']' => Some(TokenKind::RightBracket),
        ',' => Some(TokenKind::Comma),
        '.' => Some(TokenKind::Dot),
        '?' => Some(TokenKind::Question),
        ':' => Some(TokenKind::Colon),
        ';' => Some(TokenKind::Semicolon),
        '-' => Some(TokenKind::Minus),
        '+' => Some(TokenKind::Plus),
        '*' => Some(TokenKind::Star),
        '/' => Some(TokenKind::Slash),
        '%' => Some(TokenKind::Percent),
        '!' => Some(TokenKind::Bang),
        '=' => Some(TokenKind::Equal),
        '<' => Some(TokenKind::Less),
        '>' => Some(TokenKind::Greater),
        _ => None,
    }
}

/// The operators that `c` followed by `=` form.
pub open spec fn with_equal_kind(c: char) -> Option<TokenKind> {
    match c {
        '-' => Some(TokenKind::MinusEqual),
        '+' => Some(TokenKind::PlusEqual),
        '*' => Some(TokenKind::StarEqual),
        '/' => Some(TokenKind::SlashEqual),
        '%' => Some(TokenKind::PercentEqual),
        '!' => Some(TokenKind::BangEqual),
        '=' => Some(TokenKind::EqualEqual),
        '<' => Some(TokenKind::LessEqual),
        '>' => Some(TokenKind::GreaterEqual),
        _ => None,
    }
}

/// The operators that `c` written twice forms.
pub open spec fn doubled_kind(c: char) -> Option<TokenKind> {
    match c {
        '-' => Some(TokenKind::MinusMinus),
        '+' => Some(TokenKind::PlusPlus),
        _ => None,
    }
}

/// The keyword spelled by `w`, or `Identifier`.
pub open spec fn keyword_kind(w: Seq<char>) -> TokenKind {
    if w == seq!['a', 'n', 'd'] {
        TokenKind::And
    } else if w == seq!['b', 'r', 'e', 'a', 'k'] {
        TokenKind::Break
    } else if w == seq!['c', 'l', 'a', 's', 's'] {
        TokenKind::Class
    } else if w == seq!['c', 'o', 'n', 't', 'i', 'n', 'u', 'e'] {
        TokenKind::Continue
    } else if w == seq!['e', 'l', 's', 'e'] {
        TokenKind::Else
    } else if w == seq!['f', 'a', 'l', 's', 'e'] {
        TokenKind::False
    } else if w == seq!['f', 'u', 'n'] {
        TokenKind::Fun
    } else if w == seq!['f', 'o', 'r'] {
        TokenKind::For
    } else if w == seq!['i', 'f'] {
        TokenKind::If
    } else if w == seq!['n', 'i', 'l'] {
        TokenKind::Nil
    } else if w == seq!['o', 'r'] {
        TokenKind::Or
    } else if w == seq!['p', 'r', 'i', 'n', 't'] {
        TokenKind::Print
    } else if w == seq!['r', 'e', 't', 'u', 'r', 'n'] {
        TokenKind::Return
    } else if w == seq!['s', 'u', 'p', 'e', 'r'] {
        TokenKind::Super
    } else if w == seq!['t', 'h', 'i', 's'] {
        TokenKind::This
    } else if w == seq!['t', 'r', 'u', 'e'] {
        TokenKind::True
    } else if w == seq!['v', 'a', 'r'] {
        TokenKind::Var
    } else if w == seq!['w', 'h', 'i', 'l', 'e'] {
        TokenKind::While
    } else {
        TokenKind::Identifier
    }
}

/// The end of a string literal whose opening quote ends just before `i`:
/// the position past the closing quote. A backslash takes the character after
/// it along, whatever it is. `None` when the input ends first.
pub open spec fn string_end(s: Seq<char>, i: int) -> Option<int>
    decreases s.len() - i,
{
    if i < 0 || i >= s.len() {
        None
    } else if s[i] == '"' {
        Some(i + 1)
    } else if s[i] == '\\' {
        if i + 1 < s.len() {
            string_end(s, i + 2)
        } else {
            None
        }
    } else {
        string_end(s, i + 1)
    }
}

/// A fractional part starts at `j`: a dot followed by a digit.
pub open spec fn fraction_at(s: Seq<char>, j: int) -> bool {
    0 <= j && j + 1 < s.len() && s[j] == '.' && is_digit_spec(s[j + 1])
}

/// An exponent marker stands at `k`.
pub open spec fn exponent_at(s: Seq<char>, k: int) -> bool {
    0 <= k < s.len() && (s[k] == 'e' || s[k] == 'E')
}

/// The end of the integer part of a number that starts at `i`.
pub open spec fn integer_part_end(s: Seq<char>, i: int) -> int {
    run_end(s, i, CharClass::Digit)
}

/// The end of the fractional part, if any, of a number that starts at `i`.
pub open spec fn mantissa_end(s: Seq<char>, i: int) -> int {
    let j = integer_part_end(s, i);
    if fraction_at(s, j) {
        run_end(s, j + 1, CharClass::Digit)
    } else {
        j
    }
}

/// The end of a number that starts at `i`: digits, then a fractional part,
/// then an exponent marker with an optional sign and digits.
pub open spec fn number_end(s: Seq<char>, i: int) -> int {
    let k = mantissa_end(s, i);
    if exponent_at(s, k) {
        let m = if k + 1 < s.len() && (s[k + 1] == '+' || s[k + 1] == '-') {
            k + 2
        } else {
            k + 1
        };
        run_end(s, m, CharClass::Digit)
    } else {
        k
    }
}

/// A number that starts at `i` has a fractional part or an exponent.
pub open spec fn number_is_float(s: Seq<char>, i: int) -> bool {
    fraction_at(s, integer_part_end(s, i)) || exponent_at(s, mantissa_end(s, i))
}

/// What reading one token from a position yields.
pub enum Lexed {
    /// A token of `kind` spanning `[start, end)`.
    Token { kind: TokenKind, start: int, end: int },
    /// The character at `at` starts no token.
    Unrecognized { at: int },
    /// The input ends inside a string literal.
    UnterminatedString,
    /// The input ends inside a block comment.
    UnterminatedBlockComment,
}

/// The token that starts at `i`, a position before the end of `s` where no
/// whitespace or comment starts: the longest match.
pub open spec fn lex_at(s: Seq<char>, i: int) -> Lexed {
    let c = s[i];
    let next_is = |d: char| i + 1 < s.len() && s[i + 1] == d;
    if with_equal_kind(c) is Some && next_is('=') {
        Lexed::Token { kind: with_equal_kind(c)->0, start: i, end: i + 2 }
    } else if doubled_kind(c) is Some && next_is(c) {
        Lexed::Token { kind: doubled_kind(c)->0, start: i, end: i + 2 }
    } else if one_char_kind(c) is Some {
        Lexed::Token { kind: one_char_kind(c)->0, start: i, end: i + 1 }
    } else if c == '"' {
        match string_end(s, i + 1) {
            Some(end) => Lexed::Token { kind: TokenKind::Str, start: i, end },
            None => Lexed::UnterminatedString,
        }
    } else if is_digit_spec(c) {
        Lexed::Token {
            kind: if number_is_float(s, i) {
                TokenKind::Float
            } else {
                TokenKind::Integer
            },
            start: i,
            end: number_end(s, i),
        }
    } else if is_alpha_spec(c) {
        let end = run_end(s, i, CharClass::Alphanumeric);
        Lexed::Token { kind: keyword_kind(s.subrange(i, end)), start: i, end }
    } else {
        Lexed::Unrecognized { at: i }
    }
}

/// Reading one token from position `p` of `s`: whitespace and comments are
/// skipped first; at the end of the input the token is `EOF`, empty.
pub open spec fn scan_at(s: Seq<char>, p: int) -> Lexed {
    match trivia_end(s, p, 0, false) {
        None => Lexed::UnterminatedBlockComment,
        Some(i) => if i >= s.len() {
            Lexed::Token { kind: TokenKind::EOF, start: i, end: i }
        } else {
            lex_at(s, i)
        },
    }
}

/// Where the scanner stands after reading one token from `p`, error or not.
pub open spec fn scan_next(s: Seq<char>, p: int) -> int {
    match scan_at(s, p) {
        Lexed::Token { end, .. } => end,
        Lexed::Unrecognized { at } => at + 1,
        _ => s.len() as int,
    }
}

/// Line and column never exceed the number of characters read.
pub proof fn lemma_loc_at_bounds(s: Seq<char>, i: int)
    requires
        0 <= i,
    ensures
        0 <= loc_at(s, i).0 <= i,
        0 <= loc_at(s, i).1 <= i,
    decreases i,
{
    if i > 0 {
        lemma_loc_at_bounds(s, i - 1);
    }
}

/// Inside a line comment, skipping ends where the comment's line ends.
pub proof fn lemma_line_comment(s: Seq<char>, k: int)
    requires
        0 <= k <= s.len(),
    ensures
        trivia_end(s, k, 0, true) == trivia_end(s, run_end(s, k, CharClass::NotNewline), 0, false),
    decreases s.len() - k,
{
    if k < s.len() && s[k] != '\n' {
        lemma_line_comment(s, k + 1);
    }
}

/// The length and first two letters of each keyword.
pub proof fn lemma_keyword_initials()
    ensures
        seq!['a', 'n', 'd'].len() == 3 && seq!['a', 'n', 'd'][0] == 'a' && seq!['a', 'n', 'd'][1] == 'n',
        seq!['b', 'r', 'e', 'a', 'k'].len() == 5 && seq!['b', 'r', 'e', 'a', 'k'][0] == 'b' && seq!['b', 'r', 'e', 'a', 'k'][1] == 'r',
        seq!['c', 'l', 'a', 's', 's'].len() == 5 && seq!['c', 'l', 'a', 's', 's'][0] == 'c' && seq!['c', 'l', 'a', 's', 's'][1] == 'l',
        seq!['c', 'o', 'n', 't', 'i', 'n', 'u', 'e'].len() == 8 && seq!['c', 'o', 'n', 't', 'i', 'n', 'u', 'e'][0] == 'c' && seq!['c', 'o', 'n', 't', 'i', 'n', 'u', 'e'][1] == 'o',
        seq!['e', 'l', 's', 'e'].len() == 4 && seq!['e', 'l', 's', 'e'][0] == 'e' && seq!['e', 'l', 's', 'e'][1] == 'l',
        seq!['f', 'a', 'l', 's', 'e'].len() == 5 && seq!['f', 'a', 'l', 's', 'e'][0] == 'f' && seq!['f', 'a', 'l', 's', 'e'][1] == 'a',
        seq!['f', 'u', 'n'].len() == 3 && seq!['f', 'u', 'n'][0] == 'f' && seq!['f', 'u', 'n'][1] == 'u',
        seq!['f', 'o', 'r'].len() == 3 && seq!['f', 'o', 'r'][0] == 'f' && seq!['f', 'o', 'r'][1] == 'o',
        seq!['i', 'f'].len() == 2 && seq!['i', 'f'][0] == 'i' && seq!['i', 'f'][1] == 'f',
        seq!['n', 'i', 'l'].len() == 3 && seq!['n', 'i', 'l'][0] == 'n' && seq!['n', 'i', 'l'][1] == 'i',
        seq!['o', 'r'].len() == 2 && seq!['o', 'r'][0] == 'o' && seq!['o', 'r'][1] == 'r',
        seq!['p', 'r', 'i', 'n', 't'].len() == 5 && seq!['p', 'r', 'i', 'n', 't'][0] == 'p' && seq!['p', 'r', 'i', 'n', 't'][1] == 'r',
        seq!['r', 'e', 't', 'u', 'r', 'n'].len() == 6 && seq!['r', 'e', 't', 'u', 'r', 'n'][0] == 'r' && seq!['r', 'e', 't', 'u', 'r', 'n'][1] == 'e',
        seq!['s', 'u', 'p', 'e', 'r'].len() == 5 && seq!['s', 'u', 'p', 'e', 'r'][0] == 's' && seq!['s', 'u', 'p', 'e', 'r'][1] == 'u',
        seq!['t', 'h', 'i', 's'].len() == 4 && seq!['t', 'h', 'i', 's'][0] == 't' && seq!['t', 'h', 'i', 's'][1] == 'h',
        seq!['t', 'r', 'u', 'e'].len() == 4 && seq!['t', 'r', 'u', 'e'][0] == 't' && seq!['t', 'r', 'u', 'e'][1] == 'r',
        seq!['v', 'a', 'r'].len() == 3 && seq!['v', 'a', 'r'][0] == 'v' && seq!['v', 'a', 'r'][1] == 'a',
        seq!['w', 'h', 'i', 'l', 'e'].len() == 5 && seq!['w', 'h', 'i', 'l', 'e'][0] == 'w' && seq!['w', 'h', 'i', 'l', 'e'][1] == 'h',
{
}

pub proof fn lemma_run_end_bounds(s: Seq<char>, i: int, class: CharClass)
    requires
        0 <= i <= s.len(),
    ensures
        i <= run_end(s, i, class) <= s.len(),
    decreases s.len() - i,
{
    if i < s.len() && in_class(class, s[i]) {
        lemma_run_end_bounds(s, i + 1, class);
    }
}

pub proof fn lemma_trivia_end_bounds(s: Seq<char>, i: int, depth: nat, in_line: bool)
    requires
        0 <= i <= s.len(),
    ensures
        trivia_end(s, i, depth, in_line) is Some ==> i <= trivia_end(s, i, depth, in_line)->0
            <= s.len(),
    decreases s.len() - i,
{
    if i < s.len() {
        if in_line {
            lemma_trivia_end_bounds(s, i + 1, 0, s[i] != '\n');
        } else if depth > 0 {
            if opens_block_comment(s, i) {
                lemma_trivia_end_bounds(s, i + 2, depth + 1, false);
            } else if closes_block_comment(s, i) {
                lemma_trivia_end_bounds(s, i + 2, (depth - 1) as nat, false);
            } else {
                lemma_trivia_end_bounds(s, i + 1, depth, false);
            }
        } else if opens_line_comment(s, i) {
            lemma_trivia_end_bounds(s, i + 2, 0, true);
        } else if opens_block_comment(s, i) {
            lemma_trivia_end_bounds(s, i + 2, 1, false);
        } else if is_whitespace_spec(s[i]) {
            lemma_trivia_end_bounds(s, i + 1, 0, false);
        }
    }
}

pub proof fn lemma_string_end_bounds(s: Seq<char>, i: int)
    requires
        0 <= i,
    ensures
        string_end(s, i) is Some ==> i < string_end(s, i)->0 <= s.len(),
    decreases s.len() - i,
{
    if 0 <= i < s.len() && s[i] != '"' {
        if s[i] == '\\' {
            if i + 1 < s.len() {
                lemma_string_end_bounds(s, i + 2);
            }
        } else {
            lemma_string_end_bounds(s, i + 1);
        }
    }
}

/// Reading a token never moves backwards and never past the end; a token
/// other than `EOF` is never empty, and `EOF` stands at the end.
pub proof fn lemma_scan_progress(s: Seq<char>, p: int)
    requires
        0 <= p <= s.len(),
    ensures
        p <= scan_next(s, p) <= s.len(),
        match scan_at(s, p) {
            Lexed::Token { kind, start, end } => p <= start <= end && end == scan_next(s, p)
                && if kind == TokenKind::EOF {
                start == s.len() && end == s.len()
            } else {
                start < end
            },
            Lexed::Unrecognized { at } => p <= at < s.len(),
            _ => true,
        },
{
    lemma_trivia_end_bounds(s, p, 0, false);
    if let Some(i) = trivia_end(s, p, 0, false) {
        if i < s.len() {
            let c = s[i];
            if c == '"' {
                lemma_string_end_bounds(s, i + 1);
            } else if is_digit_spec(c) {
                lemma_run_end_bounds(s, i + 1, CharClass::Digit);
                let j = integer_part_end(s, i);
                if fraction_at(s, j) {
                    lemma_run_end_bounds(s, j + 1, CharClass::Digit);
                }
                let k = mantissa_end(s, i);
                if exponent_at(s, k) {
                    if k + 1 < s.len() && (s[k + 1] == '+' || s[k + 1] == '-') {
                        lemma_run_end_bounds(s, k + 2, CharClass::Digit);
                    } else {
                        lemma_run_end_bounds(s, k + 1, CharClass::Digit);
                    }
                }
            } else if is_alpha_spec(c) {
                lemma_run_end_bounds(s, i + 1, CharClass::Alphanumeric);
            }
        }
    }
}

/// The line of position `i` is the number of newlines before it; its column
/// is the number of characters since the last of them, or since the start.
pub proof fn lemma_loc_law(s: Seq<char>, i: int)
    requires
        0 <= i <= s.len(),
    ensures
        loc_at(s, i).0 == newlines_before(s, i),
        loc_at(s, i).1 == i - line_start(s, i),
        0 <= line_start(s, i) <= i,
        line_start(s, i) == 0 || s[line_start(s, i) - 1] == '\n',
        forall|j: int| line_start(s, i) <= j < i ==> s[j] != '\n',
    decreases i,
{
    if i > 0 {
        lemma_loc_law(s, i - 1);
    }
}

/// The spelling of each kind of token that has a fixed one.
pub open spec fn fixed_lexeme(k: TokenKind) -> Option<Seq<char>> {
    match k {
        TokenKind::LeftParen => Some(seq!['(']),
        TokenKind::RightParen => Some(seq![')']),
        TokenKind::LeftBrace => Some(seq!['{']),
        TokenKind::RightBrace => Some(seq!['}']),
        TokenKind::LeftBracket => Some(seq!['[']),
        TokenKind::RightBracket => Some(seq![']']),
        TokenKind::Comma => Some(seq![',']),
        TokenKind::Dot => Some(seq!['.']),
        TokenKind::Question => Some(seq!['?']),
        TokenKind::Colon => Some(seq![':']),
        TokenKind::Semicolon => Some(seq![';']),
        TokenKind::Minus => Some(seq!['-']),
        TokenKind::MinusEqual => Some(seq!['-', '=']),
        TokenKind::MinusMinus => Some(seq!['-', '-']),
        TokenKind::Plus => Some(seq!['+']),
        TokenKind::PlusEqual => Some(seq!['+', '=']),
        TokenKind::PlusPlus => Some(seq!['+', '+']),
        TokenKind::Star => Some(seq!['*']),
        TokenKind::StarEqual => Some(seq!['*', '=']),
        TokenKind::Percent => Some(seq!['%']),
        TokenKind::PercentEqual => Some(seq!['%', '=']),
        TokenKind::Slash => Some(seq!['/']),
        TokenKind::SlashEqual => Some(seq!['/', '=']),
        TokenKind::Bang => Some(seq!['!']),
        TokenKind::BangEqual => Some(seq!['!', '=']),
        TokenKind::Equal => Some(seq!['=']),
        TokenKind::EqualEqual => Some(seq!['=', '=']),
        TokenKind::Less => Some(seq!['<']),
        TokenKind::LessEqual => Some(seq!['<', '=']),
        TokenKind::Greater => Some(seq!['>']),
        TokenKind::GreaterEqual => Some(seq!['>', '=']),
        TokenKind::And => Some(seq!['a', 'n', 'd']),
        TokenKind::Break => Some(seq!['b', 'r', 'e', 'a', 'k']),
        TokenKind::Class => Some(seq!['c', 'l', 'a', 's', 's']),
        TokenKind::Continue => Some(seq!['c', 'o', 'n', 't', 'i', 'n', 'u', 'e']),
        TokenKind::Else => Some(seq!['e', 'l', 's', 'e']),
        TokenKind::False => Some(seq!['f', 'a', 'l', 's', 'e']),
        TokenKind::For => Some(seq!['f', 'o', 'r']),
        TokenKind::Fun => Some(seq!['f', 'u', 'n']),
        TokenKind::If => Some(seq!['i', 'f']),
        TokenKind::Nil => Some(seq!['n', 'i', 'l']),
        TokenKind::Or => Some(seq!['o', 'r']),
        TokenKind::Print => Some(seq!['p', 'r', 'i', 'n', 't']),
        TokenKind::Return => Some(seq!['r', 'e', 't', 'u', 'r', 'n']),
        TokenKind::Super => Some(seq!['s', 'u', 'p', 'e', 'r']),
        TokenKind::This => Some(seq!['t', 'h', 'i', 's']),
        TokenKind::True => Some(seq!['t', 'r', 'u', 'e']),
        TokenKind::Var => Some(seq!['v', 'a', 'r']),
        TokenKind::While => Some(seq!['w', 'h', 'i', 'l', 'e']),
        _ => None,
    }
}

/// A fixed lexeme alone is read as one token of its kind, at line 0,
/// column 0, and the next read gives `EOF` just past it.
pub proof fn lemma_fixed_lexeme_round_trip(k: TokenKind)
    requires
        fixed_lexeme(k) is Some,
    ensures
        ({
            let w = fixed_lexeme(k)->0;
            &&& scan_at(w, 0) == Lexed::Token { kind: k, start: 0, end: w.len() as int }
            &&& scan_at(w, w.len() as int) == Lexed::Token {
                kind: TokenKind::EOF,
                start: w.len() as int,
                end: w.len() as int,
            }
            &&& loc_at(w, 0) == (0int, 0int)
            &&& loc_at(w, w.len() as int) == (0int, w.len() as int)
        }),
{
    reveal_with_fuel(run_end, 9);
    reveal_with_fuel(loc_at, 9);
    lemma_keyword_initials();
    let w = fixed_lexeme(k)->0;
    assert(w.subrange(0, w.len() as int) =~= w);
    match k {
        TokenKind::LeftParen => {},
        TokenKind::RightParen => {},
        TokenKind::LeftBrace => {},
        TokenKind::RightBrace => {},
        TokenKind::LeftBracket => {},
        TokenKind::RightBracket => {},
        TokenKind::Comma => {},
        TokenKind::Dot => {},
        TokenKind::Question => {},
        TokenKind::Colon => {},
        TokenKind::Semicolon => {},
        TokenKind::Minus => {},
        TokenKind::MinusEqual => {},
        TokenKind::MinusMinus => {},
        TokenKind::Plus => {},
        TokenKind::PlusEqual => {},
        TokenKind::PlusPlus => {},
        TokenKind::Star => {},
        TokenKind::StarEqual => {},
        TokenKind::Percent => {},
        TokenKind::PercentEqual => {},
        TokenKind::Slash => {},
        TokenKind::SlashEqual => {},
        TokenKind::Bang => {},
        TokenKind::BangEqual => {},
        TokenKind::Equal => {},
        TokenKind::EqualEqual => {},
        TokenKind::Less => {},
        TokenKind::LessEqual => {},
        TokenKind::Greater => {},
        TokenKind::GreaterEqual => {},
        TokenKind::And => {},
        TokenKind::Break => {},
        TokenKind::Class => {},
        TokenKind::Continue => {},
        TokenKind::Else => {},
        TokenKind::False => {},
        TokenKind::For => {},
        TokenKind::Fun => {},
        TokenKind::If => {},
        TokenKind::Nil => {},
        TokenKind::Or => {},
        TokenKind::Print => {},
        TokenKind::Return => {},
        TokenKind::Super => {},
        TokenKind::This => {},
        TokenKind::True => {},
        TokenKind::Var => {},
        TokenKind::While => {},
        _ => {},
    }
}

} // verus!
