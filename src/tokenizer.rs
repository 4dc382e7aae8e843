use vstd::prelude::*;

use crate::attr::{span, Attr};
use crate::cursor::Cursor;
use crate::pos::Pos;
use crate::text::push_char;
use crate::token::{Token, TokenView};

verus! {

broadcast use vstd::string::group_string_axioms;

/// Why a lexeme could not be turned into a token. Each error carries the
/// position of the character that starts the lexeme.
#[derive(Debug, PartialEq, Eq, Structural, Clone, Copy)]
pub enum LexError {
    /// A `'` without a single character and a closing `'` after it.
    UnterminatedCharLiteral(Attr),
    /// A `"` with no closing `"` before the end of the input.
    UnterminatedStringLiteral(Attr),
    /// A character that starts no lexeme.
    UnsupportedCharacter(Attr, char),
    /// A run of digits whose value does not fit in an `i64`.
    IntegerOverflow(Attr),
}

// ---------------------------------------------------------------------------
// The lexical grammar, over the input seen as a sequence of characters.
// ---------------------------------------------------------------------------

pub open spec fn is_newline(c: char) -> bool {
    c == '\n' || c == '\r'
}

/// The characters with Unicode's White_Space property.
pub open spec fn is_white_space(c: char) -> bool {
    ||| ('\t' <= c && c <= '\r')
    ||| c == ' '
    ||| c == '\u{85}'
    ||| c == '\u{a0}'
    ||| c == '\u{1680}'
    ||| ('\u{2000}' <= c && c <= '\u{200a}')
    ||| c == '\u{2028}'
    ||| c == '\u{2029}'
    ||| c == '\u{202f}'
    ||| c == '\u{205f}'
    ||| c == '\u{3000}'
}

pub open spec fn is_digit(c: char) -> bool {
    '0' <= c && c <= '9'
}

pub open spec fn is_letter(c: char) -> bool {
    ('a' <= c && c <= 'z') || ('A' <= c && c <= 'Z')
}

pub open spec fn is_word_char(c: char) -> bool {
    is_letter(c) || is_digit(c)
}

pub open spec fn digit_value(c: char) -> int {
    c as int - '0' as int
}

/// The number that a sequence of decimal digits denotes.
pub open spec fn digits_value(d: Seq<char>) -> int
    decreases d.len(),
{
    if d.len() == 0 {
        0
    } else {
        digits_value(d.drop_last()) * 10 + digit_value(d.last())
    }
}

/// The row reached after consuming the first `i` characters of `s`.
pub open spec fn row_at(s: Seq<char>, i: int) -> int
    decreases i,
{
    if i <= 0 {
        1
    } else if is_newline(s[i - 1]) {
        row_at(s, i - 1) + 1
    } else {
        row_at(s, i - 1)
    }
}

/// The number of characters consumed on the current row after consuming the
/// first `i` characters of `s`.
pub open spec fn col_at(s: Seq<char>, i: int) -> int
    decreases i,
{
    if i <= 0 {
        0
    } else if is_newline(s[i - 1]) {
        0
    } else {
        col_at(s, i - 1) + 1
    }
}

/// The position reached after consuming the first `i` characters of `s`; the
/// column is a byte and counts modulo 256.
pub open spec fn pos_at(s: Seq<char>, i: int) -> Pos {
    Pos { row: row_at(s, i) as u32, col: (col_at(s, i) % 256) as u8 }
}

/// The first index from `i` on that holds no white space (or the length).
pub open spec fn skip_blank(s: Seq<char>, i: int) -> int
    decreases s.len() - i,
{
    if 0 <= i < s.len() && is_white_space(s[i]) {
        skip_blank(s, i + 1)
    } else {
        i
    }
}

/// The end of the run of digits that starts at `i`.
pub open spec fn digits_end(s: Seq<char>, i: int) -> int
    decreases s.len() - i,
{
    if 0 <= i < s.len() && is_digit(s[i]) {
        digits_end(s, i + 1)
    } else {
        i
    }
}

/// The end of the run of letters and digits that starts at `i`.
pub open spec fn word_end(s: Seq<char>, i: int) -> int
    decreases s.len() - i,
{
    if 0 <= i < s.len() && is_word_char(s[i]) {
        word_end(s, i + 1)
    } else {
        i
    }
}

/// The index of the first `"` from `i` on (or the length, if there is none).
pub open spec fn quote_at_or_after(s: Seq<char>, i: int) -> int
    decreases s.len() - i,
{
    if 0 <= i < s.len() && s[i] != '"' {
        quote_at_or_after(s, i + 1)
    } else {
        i
    }
}

pub open spec fn is_keyword(w: Seq<char>) -> bool {
    ||| w == "typedef"@
    ||| w == "struct"@
    ||| w == "enum"@
    ||| w == "if"@
    ||| w == "else"@
    ||| w == "while"@
    ||| w == "return"@
}

pub open spec fn is_symbol(c: char) -> bool {
    ||| c == '+' || c == '-' || c == '*' || c == '/' || c == '!'
    ||| c == '<' || c == '>' || c == '.' || c == '?' || c == '#'
    ||| c == '(' || c == ')' || c == '[' || c == ']' || c == '{' || c == '}'
}

/// Whether `c` followed by `d` forms one two-character operator.
pub open spec fn pairs_with(c: char, d: char) -> bool {
    ||| c == '+' && d == '+'
    ||| c == '-' && d == '>'
    ||| c == '<' && (d == '<' || d == '=')
    ||| c == '>' && (d == '>' || d == '=')
}

/// The token of the operator or punctuation that starts with `c`; `d` is the
/// character after it, which belongs to the token when `pair` holds.
pub open spec fn symbol_token(c: char, d: char, pair: bool, a: Attr) -> Token {
    if c == '+' {
        if pair { Token::Incr(a) } else { Token::Plus(a) }
    } else if c == '-' {
        if pair { Token::Arrow(a) } else { Token::Minus(a) }
    } else if c == '<' {
        if !pair { Token::Lt(a) } else if d == '<' { Token::LShift(a) } else { Token::Lte(a) }
    } else if c == '>' {
        if !pair { Token::Gt(a) } else if d == '>' { Token::RShift(a) } else { Token::Gte(a) }
    } else if c == '*' {
        Token::Mul(a)
    } else if c == '/' {
        Token::Div(a)
    } else if c == '!' {
        Token::Not(a)
    } else if c == '.' {
        Token::Dot(a)
    } else if c == '?' {
        Token::QuestionMark(a)
    } else if c == '(' {
        Token::LParen(a)
    } else if c == ')' {
        Token::RParen(a)
    } else if c == '[' {
        Token::LBraket(a)
    } else if c == ']' {
        Token::RBraket(a)
    } else if c == '{' {
        Token::LBrace(a)
    } else if c == '}' {
        Token::RBrace(a)
    } else {
        Token::Hash(a)
    }
}

/// The attribute of the characters `s[first..end]`.
pub open spec fn span_of(s: Seq<char>, first: int, end: int) -> Attr {
    span(pos_at(s, first + 1), pos_at(s, end))
}

/// The attribute of the single character `s[first]`.
pub open spec fn point_of(s: Seq<char>, first: int) -> Attr {
    span_of(s, first, first + 1)
}

/// The outcome of lexing the lexeme that starts with the non-blank character
/// `s[j]`, and the index where lexing resumes. A literal left open consumes
/// the rest of the input.
pub open spec fn lex_at(s: Seq<char>, j: int) -> (Result<TokenView, LexError>, int) {
    let c = s[j];
    if is_symbol(c) {
        let pair = j + 1 < s.len() && pairs_with(c, s[j + 1]);
        let end = if pair { j + 2 } else { j + 1 };
        let d = if pair { s[j + 1] } else { c };
        (Ok(TokenView::Plain(symbol_token(c, d, pair, span_of(s, j, end)))), end)
    } else if c == '\'' {
        if j + 2 < s.len() && s[j + 2] == '\'' {
            (Ok(TokenView::Plain(Token::Char(span_of(s, j, j + 3), s[j + 1]))), j + 3)
        } else {
            (Err(LexError::UnterminatedCharLiteral(point_of(s, j))), s.len() as int)
        }
    } else if c == '"' {
        let q = quote_at_or_after(s, j + 1);
        if q < s.len() {
            (Ok(TokenView::Str(span_of(s, j, q + 1), s.subrange(j + 1, q))), q + 1)
        } else {
            (Err(LexError::UnterminatedStringLiteral(point_of(s, j))), s.len() as int)
        }
    } else if is_digit(c) {
        let e = digits_end(s, j + 1);
        let v = digits_value(s.subrange(j, e));
        if v <= i64::MAX {
            (Ok(TokenView::Plain(Token::Int64(span_of(s, j, e), v as i64))), e)
        } else {
            (Err(LexError::IntegerOverflow(span_of(s, j, e))), e)
        }
    } else if is_letter(c) {
        let e = word_end(s, j + 1);
        let w = s.subrange(j, e);
        if is_keyword(w) {
            (Ok(TokenView::Id(span_of(s, j, e), w)), e)
        } else {
            (Ok(TokenView::Str(span_of(s, j, e), w)), e)
        }
    } else {
        (Err(LexError::UnsupportedCharacter(point_of(s, j), c)), j + 1)
    }
}

/// The outcome of asking for the next token when the first `i` characters of
/// `s` are consumed, and the index where lexing resumes. At the end of the
/// input the outcome is `EOF`, as often as it is asked for.
pub open spec fn lex_next(s: Seq<char>, i: int) -> (Result<TokenView, LexError>, int) {
    let j = skip_blank(s, i);
    if j >= s.len() {
        (Ok(TokenView::Plain(Token::EOF)), j)
    } else {
        lex_at(s, j)
    }
}

/// The view of what one call of `Tokenizer::next` returns.
pub open spec fn lexed(r: Result<Token, LexError>) -> Result<TokenView, LexError> {
    match r {
        Ok(t) => Ok(t@),
        Err(e) => Err(e),
    }
}

proof fn lemma_row_bound(s: Seq<char>, i: int)
    requires
        0 <= i,
    ensures
        1 <= row_at(s, i) <= 1 + i,
        0 <= col_at(s, i) <= i,
    decreases i,
{
    if i > 0 {
        lemma_row_bound(s, i - 1);
    }
}

fn pairs_with_exec(c: char, d: char) -> (r: bool)
    ensures
        r == pairs_with(c, d),
{
    (c == '+' && d == '+') || (c == '-' && d == '>') || (c == '<' && (d == '<' || d == '=')) || (c
        == '>' && (d == '>' || d == '='))
}

fn is_symbol_exec(c: char) -> (r: bool)
    ensures
        r == is_symbol(c),
{
    c == '+' || c == '-' || c == '*' || c == '/' || c == '!' || c == '<' || c == '>' || c == '.'
        || c == '?' || c == '#' || c == '(' || c == ')' || c == '[' || c == ']' || c == '{' || c
        == '}'
}

fn is_word_char_exec(c: char) -> (r: bool)
    ensures
        r == is_word_char(c),
{
    ('a' <= c && c <= 'z') || ('A' <= c && c <= 'Z') || ('0' <= c && c <= '9')
}

fn symbol_token_exec(c: char, d: char, pair: bool, a: Attr) -> (r: Token)
    ensures
        r == symbol_token(c, d, pair, a),
{
    if c == '+' {
        if pair { Token::Incr(a) } else { Token::Plus(a) }
    } else if c == '-' {
        if pair { Token::Arrow(a) } else { Token::Minus(a) }
    } else if c == '<' {
        if !pair { Token::Lt(a) } else if d == '<' { Token::LShift(a) } else { Token::Lte(a) }
    } else if c == '>' {
        if !pair { Token::Gt(a) } else if d == '>' { Token::RShift(a) } else { Token::Gte(a) }
    } else if c == '*' {
        Token::Mul(a)
    } else if c == '/' {
        Token::Div(a)
    } else if c == '!' {
        Token::Not(a)
    } else if c == '.' {
        Token::Dot(a)
    } else if c == '?' {
        Token::QuestionMark(a)
    } else if c == '(' {
        Token::LParen(a)
    } else if c == ')' {
        Token::RParen(a)
    } else if c == '[' {
        Token::LBraket(a)
    } else if c == ']' {
        Token::RBraket(a)
    } else if c == '{' {
        Token::LBrace(a)
    } else if c == '}' {
        Token::RBrace(a)
    } else {
        Token::Hash(a)
    }
}

proof fn lemma_digits_push(d: Seq<char>, c: char)
    ensures
        digits_value(d.push(c)) == digits_value(d) * 10 + digit_value(c),
{
    assert(d.push(c).drop_last() =~= d);
}

proof fn lemma_digits_end(s: Seq<char>, i: int, k: int)
    requires
        0 <= i <= k <= s.len(),
        forall|j: int| i <= j < k ==> is_digit(s[j]),
        k == s.len() || !is_digit(s[k]),
    ensures
        digits_end(s, i) == k,
    decreases k - i,
{
    if i < k {
        lemma_digits_end(s, i + 1, k);
    }
}

proof fn lemma_pos_on_first_row(s: Seq<char>, i: int)
    requires
        0 <= i <= s.len(),
        forall|k: int| 0 <= k < i ==> !is_newline(s[k]),
    ensures
        row_at(s, i) == 1,
        col_at(s, i) == i,
    decreases i,
{
    if i > 0 {
        lemma_pos_on_first_row(s, i - 1);
    }
}

/// A run of `k` decimal digits at the start of the input (the whole input,
/// or followed by a character that is not a digit) lexes as one integer token
/// holding the run's value, with the range from column 1 to column `k` of
/// row 1 (a single point when `k` is 1). Columns are bytes, so `k` is at most
/// 255; the value must fit in an `i64`.
pub proof fn lemma_lex_decimal(s: Seq<char>, k: int)
    requires
        1 <= k <= 255,
        k <= s.len(),
        forall|i: int| 0 <= i < k ==> is_digit(s[i]),
        k == s.len() || !is_digit(s[k]),
        digits_value(s.subrange(0, k)) <= i64::MAX,
    ensures
        lex_next(s, 0) == (
            Ok::<TokenView, LexError>(
                TokenView::Plain(
                    Token::Int64(
                        span(Pos { row: 1, col: 1 }, Pos { row: 1, col: k as u8 }),
                        digits_value(s.subrange(0, k)) as i64,
                    ),
                ),
            ),
            k,
        ),
{
    assert(skip_blank(s, 0) == 0);
    lemma_digits_end(s, 1, k);
    lemma_pos_on_first_row(s, 1);
    lemma_pos_on_first_row(s, k);
}

/// Once the input holds nothing but white space, lexing yields `EOF` and
/// stays where it is, so every later call yields `EOF` again.
pub proof fn lemma_eof_is_terminal(s: Seq<char>, i: int)
    requires
        0 <= i <= s.len(),
        lex_next(s, i).0 == Ok::<TokenView, LexError>(TokenView::Plain(Token::EOF)),
    ensures
        lex_next(s, lex_next(s, i).1) == lex_next(s, i),
        lex_next(s, i).1 == s.len(),
{
    lemma_skip_blank_bounds(s, i);
    let j = skip_blank(s, i);
    if j < s.len() {
        lemma_lex_at_not_eof(s, j);
    }
}

proof fn lemma_skip_blank_bounds(s: Seq<char>, i: int)
    requires
        0 <= i <= s.len(),
    ensures
        i <= skip_blank(s, i) <= s.len(),
    decreases s.len() - i,
{
    if i < s.len() && is_white_space(s[i]) {
        lemma_skip_blank_bounds(s, i + 1);
    }
}

proof fn lemma_lex_at_not_eof(s: Seq<char>, j: int)
    requires
        0 <= j < s.len(),
    ensures
        lex_at(s, j).0 != Ok::<TokenView, LexError>(TokenView::Plain(Token::EOF)),
{
    let c = s[j];
    if is_symbol(c) {
        let pair = j + 1 < s.len() && pairs_with(c, s[j + 1]);
        let end = if pair { j + 2 } else { j + 1 };
        let d = if pair { s[j + 1] } else { c };
        assert(symbol_token(c, d, pair, span_of(s, j, end)) != Token::EOF);
    }
}

// ---------------------------------------------------------------------------
// The tokenizer.
// ---------------------------------------------------------------------------

/// A single-pass scanner that hands out one token per call of `next`.
pub struct Tokenizer {
    chars: Vec<char>,
    next: usize,
    cursor: Cursor,
    attr: Attr,
}

impl Tokenizer {
    /// The input, as characters.
    pub closed spec fn text(&self) -> Seq<char> {
        self.chars@
    }

    /// How many characters of the input are consumed.
    pub closed spec fn offset(&self) -> int {
        self.next as int
    }

    pub closed spec fn wf(&self) -> bool {
        &&& self.chars.len() < i32::MAX
        &&& self.next <= self.chars.len()
        &&& self.cursor.index == self.next - 1
        &&& self.cursor.pos() == pos_at(self.chars@, self.next as int)
    }

    pub fn new(input: &str) -> (r: Tokenizer)
        requires
            input@.len() < i32::MAX,
        ensures
            r.wf(),
            r.text() == input@,
            r.offset() == 0,
    {
        let mut chars: Vec<char> = Vec::new();
        for c in it: input.chars()
            invariant
                chars@ == it.seq().take(it.index()),
                it.seq() == input@,
        {
            chars.push(c);
        }
        assert(chars@ == input@);
        Tokenizer { chars, next: 0, cursor: Cursor::new(), attr: Attr::new() }
    }

    /// Consumes one character, if any is left, keeping the cursor on the
    /// position after it.
    fn advance(&mut self) -> (r: Option<char>)
        requires
            old(self).wf(),
        ensures
            final(self).wf(),
            final(self).chars == old(self).chars,
            final(self).attr == old(self).attr,
            old(self).next < old(self).chars.len() ==> r == Some(old(self).chars@[old(self).next as int])
                && final(self).next == old(self).next + 1,
            old(self).next == old(self).chars.len() ==> r is None && final(self).next == old(self).next,
    {
        if self.next < self.chars.len() {
            let c = self.chars[self.next];
            proof {
                lemma_row_bound(self.chars@, self.next as int);
            }
            if self.is_newline(c) {
                self.cursor.incr_row();
            } else {
                self.cursor.incr_col();
            }
            self.next = self.next + 1;
            Some(c)
        } else {
            None
        }
    }

    /// The next character, without consuming it.
    fn peek(&self) -> (r: Option<char>)
        requires
            self.wf(),
        ensures
            self.next < self.chars.len() ==> r == Some(self.chars@[self.next as int]),
            self.next == self.chars.len() ==> r is None,
    {
        if self.next < self.chars.len() {
            Some(self.chars[self.next])
        } else {
            None
        }
    }

    /// Starts the current token's attribute at the cursor.
    fn mark_start(&mut self)
        ensures
            final(self).attr == span(old(self).cursor.pos(), old(self).attr.range.end),
            final(self).chars == old(self).chars,
            final(self).next == old(self).next,
            final(self).cursor == old(self).cursor,
    {
        self.attr.set_start_pos(self.cursor.cur_pos());
    }

    /// Ends the current token's attribute at the cursor.
    fn mark_end(&mut self)
        ensures
            final(self).attr == span(old(self).attr.range.start, old(self).cursor.pos()),
            final(self).chars == old(self).chars,
            final(self).next == old(self).next,
            final(self).cursor == old(self).cursor,
    {
        self.attr.set_end_pos(self.cursor.cur_pos());
    }

    /// Whether `chars[from..to]` spells `word`.
    fn spells(&self, from: usize, to: usize, word: &str) -> (r: bool)
        requires
            from <= to <= self.chars.len(),
        ensures
            r == (self.chars@.subrange(from as int, to as int) == word@),
    {
        let n = word.unicode_len();
        if to - from != n {
            return false;
        }
        let mut i: usize = 0;
        while i < n
            invariant
                from <= to <= self.chars.len(),
                to - from == n == word@.len(),
                i <= n,
                forall|k: int| 0 <= k < i ==> self.chars@[from + k] == word@[k],
            decreases n - i,
        {
            if self.chars[from + i] != word.get_char(i) {
                assert(self.chars@.subrange(from as int, to as int)[i as int] != word@[i as int]);
                return false;
            }
            i = i + 1;
        }
        assert(self.chars@.subrange(from as int, to as int) =~= word@);
        true
    }

    /// Whether `chars[from..to]` is a keyword.
    fn is_keyword(&self, from: usize, to: usize) -> (r: bool)
        requires
            from <= to <= self.chars.len(),
        ensures
            r == is_keyword(self.chars@.subrange(from as int, to as int)),
    {
        self.spells(from, to, "typedef") || self.spells(from, to, "struct") || self.spells(
            from,
            to,
            "enum",
        ) || self.spells(from, to, "if") || self.spells(from, to, "else") || self.spells(
            from,
            to,
            "while",
        ) || self.spells(from, to, "return")
    }

    fn is_white_space(&self, c: char) -> (r: bool)
        ensures
            r == is_white_space(c),
    {
        ('\t' <= c && c <= '\r') || c == ' ' || c == '\u{85}' || c == '\u{a0}' || c == '\u{1680}'
            || ('\u{2000}' <= c && c <= '\u{200a}') || c == '\u{2028}' || c == '\u{2029}' || c
            == '\u{202f}' || c == '\u{205f}' || c == '\u{3000}'
    }

    /// Consumes the rest of a run of digits whose first digit, `c`, has just
    /// been consumed, and returns the run's value, or `None` where it does
    /// not fit in an `i64`.
    fn read_number(&mut self, c: char) -> (r: Option<i64>)
        requires
            old(self).wf(),
            1 <= old(self).next,
            old(self).chars@[old(self).next - 1] == c,
            is_digit(c),
        ensures
            final(self).wf(),
            final(self).chars == old(self).chars,
            final(self).attr == old(self).attr,
            final(self).next == digits_end(old(self).chars@, old(self).next as int),
            ({
                let v = digits_value(
                    old(self).chars@.subrange(old(self).next - 1, final(self).next as int),
                );
                &&& v <= i64::MAX ==> r == Some(v as i64)
                &&& v > i64::MAX ==> r is None
            }),
    {
        let ghost s = self.chars@;
        let ghost first: int = self.next - 1;
        let mut v: i64 = (c as u32 - '0' as u32) as i64;
        let mut fits = true;
        proof {
            lemma_digits_push(Seq::<char>::empty(), c);
            assert(Seq::<char>::empty().push(c) =~= s.subrange(first, first + 1));
        }
        loop
            invariant
                self.wf(),
                self.chars == old(self).chars,
                self.chars@ == s,
                self.attr == old(self).attr,
                0 <= first < self.next <= s.len(),
                digits_end(s, old(self).next as int) == digits_end(s, self.next as int),
                fits ==> v == digits_value(s.subrange(first, self.next as int)),
                !fits ==> digits_value(s.subrange(first, self.next as int)) > i64::MAX,
                0 <= v,
            ensures
                self.wf(),
                self.chars == old(self).chars,
                self.attr == old(self).attr,
                first < self.next,
                self.next == digits_end(s, old(self).next as int),
                fits ==> v == digits_value(s.subrange(first, self.next as int)),
                !fits ==> digits_value(s.subrange(first, self.next as int)) > i64::MAX,
            decreases s.len() - self.next,
        {
            match self.peek() {
                Some(d) => {
                    if '0' <= d && d <= '9' {
                        let ghost before = self.next as int;
                        self.advance();
                        let digit = (d as u32 - '0' as u32) as i64;
                        proof {
                            lemma_digits_push(s.subrange(first, before), d);
                            assert(s.subrange(first, before).push(d) =~= s.subrange(first, before + 1));
                        }
                        if fits && v <= (i64::MAX - digit) / 10 {
                            v = v * 10 + digit;
                        } else {
                            fits = false;
                        }
                    } else {
                        break;
                    }
                },
                None => {
                    break;
                },
            }
        }
        if fits {
            Some(v)
        } else {
            None
        }
    }

    /// Consumes the rest of the input.
    fn skip_rest(&mut self)
        requires
            old(self).wf(),
        ensures
            final(self).wf(),
            final(self).chars == old(self).chars,
            final(self).next == final(self).chars.len(),
    {
        while self.next < self.chars.len()
            invariant
                self.wf(),
                self.chars == old(self).chars,
            decreases self.chars.len() - self.next,
        {
            self.advance();
        }
    }

    /// Lexes an operator or punctuation whose first character, `c`, has just
    /// been consumed.
    fn lex_symbol(&mut self, c: char) -> (r: Result<Token, LexError>)
        requires
            old(self).wf(),
            1 <= old(self).next,
            old(self).chars@[old(self).next - 1] == c,
            is_symbol(c),
        ensures
            final(self).wf(),
            final(self).chars == old(self).chars,
            (lexed(r), final(self).next as int) == lex_at(old(self).chars@, old(self).next - 1),
    {
        self.mark_start();
        let (pair, second) = match self.peek() {
            Some(d) => (pairs_with_exec(c, d), d),
            None => (false, c),
        };
        if pair {
            self.advance();
        }
        self.mark_end();
        Ok(symbol_token_exec(c, second, pair, self.attr))
    }

    /// Lexes a character literal whose opening `'` has just been consumed.
    fn lex_char(&mut self) -> (r: Result<Token, LexError>)
        requires
            old(self).wf(),
            1 <= old(self).next,
            old(self).chars@[old(self).next - 1] == '\'',
        ensures
            final(self).wf(),
            final(self).chars == old(self).chars,
            (lexed(r), final(self).next as int) == lex_at(old(self).chars@, old(self).next - 1),
    {
        let start = self.cursor.cur_pos();
        if self.next + 1 < self.chars.len() && self.chars[self.next + 1] == '\'' {
            self.mark_start();
            let c = self.chars[self.next];
            self.advance();
            self.advance();
            self.mark_end();
            Ok(Token::Char(self.attr, c))
        } else {
            self.skip_rest();
            Err(LexError::UnterminatedCharLiteral(Attr::point(start.row, start.col)))
        }
    }

    /// Lexes a string literal whose opening `"` has just been consumed.
    fn lex_string(&mut self) -> (r: Result<Token, LexError>)
        requires
            old(self).wf(),
            1 <= old(self).next,
            old(self).chars@[old(self).next - 1] == '"',
        ensures
            final(self).wf(),
            final(self).chars == old(self).chars,
            (lexed(r), final(self).next as int) == lex_at(old(self).chars@, old(self).next - 1),
    {
        let ghost s = self.chars@;
        let ghost j: int = self.next - 1;
        let start = self.cursor.cur_pos();
        self.mark_start();
        let mut text = String::new();
        loop
            invariant
                self.wf(),
                self.chars == old(self).chars,
                self.chars@ == s,
                0 <= j < self.next <= s.len(),
                j == old(self).next - 1,
                s[j] == '"',
                self.attr.range.start == pos_at(s, j + 1),
                start == pos_at(s, j + 1),
                text@ == s.subrange(j + 1, self.next as int),
                quote_at_or_after(s, j + 1) == quote_at_or_after(s, self.next as int),
            decreases s.len() - self.next,
        {
            let ghost before = self.next as int;
            match self.advance() {
                Some(c) => {
                    if c == '"' {
                        self.mark_end();
                        assert(quote_at_or_after(s, before) == before);
                        assert(text@ == s.subrange(j + 1, before));
                        return Ok(Token::String(self.attr, text));
                    }
                    push_char(&mut text, c);
                    assert(s.subrange(j + 1, before).push(c) =~= s.subrange(j + 1, before + 1));
                },
                None => {
                    assert(quote_at_or_after(s, before) == before);
                    return Err(LexError::UnterminatedStringLiteral(Attr::point(start.row, start.col)));
                },
            }
        }
    }

    /// Lexes a number whose first digit, `c`, has just been consumed.
    fn parse_number(&mut self, c: char) -> (r: Result<Token, LexError>)
        requires
            old(self).wf(),
            1 <= old(self).next,
            old(self).chars@[old(self).next - 1] == c,
            is_digit(c),
        ensures
            final(self).wf(),
            final(self).chars == old(self).chars,
            (lexed(r), final(self).next as int) == lex_at(old(self).chars@, old(self).next - 1),
    {
        self.mark_start();
        let v = self.read_number(c);
        self.mark_end();
        match v {
            Some(v) => Ok(Token::Int64(self.attr, v)),
            None => Err(LexError::IntegerOverflow(self.attr)),
        }
    }

    /// Lexes a word whose first letter, `c`, has just been consumed.
    fn lex_word(&mut self, c: char) -> (r: Result<Token, LexError>)
        requires
            old(self).wf(),
            1 <= old(self).next,
            old(self).chars@[old(self).next - 1] == c,
            is_letter(c),
        ensures
            final(self).wf(),
            final(self).chars == old(self).chars,
            (lexed(r), final(self).next as int) == lex_at(old(self).chars@, old(self).next - 1),
    {
        let ghost s = self.chars@;
        let first = self.next - 1;
        self.mark_start();
        let mut text = String::new();
        push_char(&mut text, c);
        assert(Seq::<char>::empty().push(c) =~= s.subrange(first as int, first + 1));
        loop
            invariant
                self.wf(),
                self.chars == old(self).chars,
                self.chars@ == s,
                first < self.next <= s.len(),
                self.attr.range.start == pos_at(s, first + 1),
                text@ == s.subrange(first as int, self.next as int),
                word_end(s, first + 1) == word_end(s, self.next as int),
            ensures
                self.wf(),
                self.chars == old(self).chars,
                first < self.next <= s.len(),
                self.attr.range.start == pos_at(s, first + 1),
                text@ == s.subrange(first as int, self.next as int),
                self.next == word_end(s, first + 1),
            decreases s.len() - self.next,
        {
            match self.peek() {
                Some(d) => {
                    if is_word_char_exec(d) {
                        let ghost before = self.next as int;
                        self.advance();
                        push_char(&mut text, d);
                        assert(s.subrange(first as int, before).push(d) =~= s.subrange(
                            first as int,
                            before + 1,
                        ));
                    } else {
                        break;
                    }
                },
                None => {
                    break;
                },
            }
        }
        self.mark_end();
        if self.is_keyword(first, self.next) {
            Ok(Token::ID(self.attr, text))
        } else {
            Ok(Token::String(self.attr, text))
        }
    }

    /// Lexes the lexeme whose first character, `c`, has just been consumed.
    fn lex_from(&mut self, c: char) -> (r: Result<Token, LexError>)
        requires
            old(self).wf(),
            1 <= old(self).next,
            old(self).chars@[old(self).next - 1] == c,
        ensures
            final(self).wf(),
            final(self).chars == old(self).chars,
            (lexed(r), final(self).next as int) == lex_at(old(self).chars@, old(self).next - 1),
    {
        if is_symbol_exec(c) {
            self.lex_symbol(c)
        } else if c == '\'' {
            self.lex_char()
        } else if c == '"' {
            self.lex_string()
        } else if '0' <= c && c <= '9' {
            self.parse_number(c)
        } else if ('a' <= c && c <= 'z') || ('A' <= c && c <= 'Z') {
            self.lex_word(c)
        } else {
            Err(LexError::UnsupportedCharacter(self.attr_of_last(), c))
        }
    }

    /// The attribute of the character consumed last.
    fn attr_of_last(&self) -> (r: Attr)
        requires
            self.wf(),
        ensures
            r == span(self.cursor.pos(), self.cursor.pos()),
    {
        let p = self.cursor.cur_pos();
        Attr::point(p.row, p.col)
    }

    /// Hands out the next token. White space is skipped; at the end of the
    /// input every call returns `EOF`.
    pub fn next(&mut self) -> (r: Result<Token, LexError>)
        requires
            old(self).wf(),
        ensures
            final(self).wf(),
            final(self).text() == old(self).text(),
            lexed(r) == lex_next(old(self).text(), old(self).offset()).0,
            final(self).offset() == lex_next(old(self).text(), old(self).offset()).1,
    {
        let ghost s = self.chars@;
        while self.next < self.chars.len() && self.is_white_space(self.chars[self.next])
            invariant
                self.wf(),
                self.chars == old(self).chars,
                self.chars@ == s,
                skip_blank(s, old(self).next as int) == skip_blank(s, self.next as int),
            decreases s.len() - self.next,
        {
            self.advance();
        }
        match self.advance() {
            Some(c) => self.lex_from(c),
            None => Ok(Token::EOF),
        }
    }

    fn is_newline(&self, c: char) -> (r: bool)
        ensures
            r == is_newline(c),
    {
        c == '\n' || c == '\r'
    }
}

} // verus!
