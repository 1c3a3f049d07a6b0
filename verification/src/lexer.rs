//! The lexer: a character-scanning state machine that turns source text into
//! a stream of tokens, one token of lookahead ahead of the parser.
//!
//! The scanner's meaning is given by `scan_token`: from a character sequence
//! and a position it yields the next token and the position to resume at.
//! Identifiers are made of ASCII letters and underscores, numbers of ASCII
//! digits, and whitespace is the ASCII kind; an integer literal too large
//! for 32 bits, a lone `&` or `|`, and any other unknown character scan as
//! the illegal token.  An unterminated string literal ends at the end of the
//! input.

use vstd::prelude::*;
use crate::token::Token;
use crate::token::TokenV;

verus! {

/// The zero character stands for "past the end of the input".
pub open spec fn char_at(s: Seq<char>, pos: int) -> char {
    if 0 <= pos < s.len() {
        s[pos]
    } else {
        '\0'
    }
}

/// An ASCII letter or underscore: the characters identifiers are made of.
pub open spec fn is_letter(c: char) -> bool {
    ('a' as u32) <= (c as u32) && (c as u32) <= ('z' as u32) || ('A' as u32) <= (c as u32) && (
    c as u32) <= ('Z' as u32) || c == '_'
}

/// An ASCII decimal digit.
pub open spec fn is_digit(c: char) -> bool {
    ('0' as u32) <= (c as u32) && (c as u32) <= ('9' as u32)
}

/// ASCII whitespace.
pub open spec fn is_space(c: char) -> bool {
    c == ' ' || c == '\t' || c == '\n' || c == '\r'
}

/// The value of an ASCII digit.
pub open spec fn digit_value(c: char) -> int {
    (c as u32) - ('0' as u32)
}

/// The first position at or after `pos` that does not hold whitespace.
pub open spec fn skip_spaces(s: Seq<char>, pos: int) -> int
    decreases s.len() - pos,
{
    if pos < 0 || pos >= s.len() || !is_space(s[pos]) {
        pos
    } else {
        skip_spaces(s, pos + 1)
    }
}

/// The first position at or after `pos` that does not hold an identifier
/// character.
pub open spec fn ident_end(s: Seq<char>, pos: int) -> int
    decreases s.len() - pos,
{
    if pos < 0 || pos >= s.len() || !is_letter(s[pos]) {
        pos
    } else {
        ident_end(s, pos + 1)
    }
}

/// The first position at or after `pos` that does not hold a digit.
pub open spec fn number_end(s: Seq<char>, pos: int) -> int
    decreases s.len() - pos,
{
    if pos < 0 || pos >= s.len() || !is_digit(s[pos]) {
        pos
    } else {
        number_end(s, pos + 1)
    }
}

/// The position of the closing quote at or after `pos`, or the end of the
/// input when the string is unterminated.
pub open spec fn string_end(s: Seq<char>, pos: int) -> int
    decreases s.len() - pos,
{
    if pos < 0 || pos >= s.len() {
        s.len() as int
    } else if s[pos] == '"' {
        pos
    } else {
        string_end(s, pos + 1)
    }
}

/// The position of the newline ending a line comment, or the end of the
/// input.
pub open spec fn line_end(s: Seq<char>, pos: int) -> int
    decreases s.len() - pos,
{
    if pos < 0 || pos >= s.len() {
        s.len() as int
    } else if s[pos] == '\n' || s[pos] == '\0' {
        pos
    } else {
        line_end(s, pos + 1)
    }
}

/// The position just past the `*/` closing a block comment, or the end of
/// the input when the comment is unterminated.
pub open spec fn block_end(s: Seq<char>, pos: int) -> int
    decreases s.len() - pos,
{
    if pos < 0 || pos >= s.len() {
        s.len() as int
    } else if s[pos] == '\0' {
        pos + 1
    } else if s[pos] == '*' && char_at(s, pos + 1) == '/' {
        pos + 2
    } else {
        block_end(s, pos + 1)
    }
}

/// The decimal value of a digit sequence.
pub open spec fn dec_value(ds: Seq<char>) -> int
    decreases ds,
{
    if ds.len() == 0 {
        0
    } else {
        dec_value(ds.drop_last()) * 10 + digit_value(ds.last())
    }
}

/// The token a scanned word stands for: a keyword, a boolean literal, or an
/// identifier.
pub open spec fn word_token(w: Seq<char>) -> TokenV {
    if w == "let"@ {
        TokenV::LET
    } else if w == "fn"@ {
        TokenV::FUNCTION
    } else if w == "true"@ {
        TokenV::BOOLEAN(true)
    } else if w == "false"@ {
        TokenV::BOOLEAN(false)
    } else if w == "if"@ {
        TokenV::IF
    } else if w == "while"@ {
        TokenV::WHILE
    } else if w == "else"@ {
        TokenV::ELSE
    } else if w == "return"@ {
        TokenV::RETURN
    } else {
        TokenV::IDENT(w)
    }
}

/// The next token at or after `pos`, and the position scanning resumes at.
/// Comments scan as nothing: scanning continues past them.
pub open spec fn scan_token(s: Seq<char>, pos: int) -> (TokenV, int)
    decreases s.len() - pos,
{
    let p0 = skip_spaces(s, pos);
    let p = if p0 < pos {
        pos
    } else {
        p0
    };
    let c = char_at(s, p);
    if p >= s.len() {
        (TokenV::EOF, p)
    } else if c == '\0' {
        (TokenV::EOF, p + 1)
    } else if c == '=' {
        if char_at(s, p + 1) == '=' {
            (TokenV::EQ, p + 2)
        } else {
            (TokenV::ASSIGN, p + 1)
        }
    } else if c == '!' {
        if char_at(s, p + 1) == '=' {
            (TokenV::NOT_EQ, p + 2)
        } else {
            (TokenV::BANG, p + 1)
        }
    } else if c == ';' {
        (TokenV::SEMICOLON, p + 1)
    } else if c == '(' {
        (TokenV::LPAREN, p + 1)
    } else if c == ')' {
        (TokenV::RPAREN, p + 1)
    } else if c == '[' {
        (TokenV::LBRACKET, p + 1)
    } else if c == ']' {
        (TokenV::RBRACKET, p + 1)
    } else if c == ',' {
        (TokenV::COMMA, p + 1)
    } else if c == '+' {
        (TokenV::PLUS, p + 1)
    } else if c == '-' {
        (TokenV::MINUS, p + 1)
    } else if c == '/' {
        if char_at(s, p + 1) == '/' {
            let r0 = line_end(s, p);
            let r1 = if r0 > p + 1 {
                r0
            } else {
                p + 2
            };
            let resume = if r1 > s.len() {
                s.len() as int
            } else {
                r1
            };
            scan_token(s, resume)
        } else if char_at(s, p + 1) == '*' {
            let r0 = block_end(s, p + 1);
            let r1 = if r0 > p + 1 {
                r0
            } else {
                p + 2
            };
            let resume = if r1 > s.len() {
                s.len() as int
            } else {
                r1
            };
            scan_token(s, resume)
        } else {
            (TokenV::SLASH, p + 1)
        }
    } else if c == '*' {
        (TokenV::ASTERISK, p + 1)
    } else if c == '<' {
        (TokenV::LT, p + 1)
    } else if c == '>' {
        (TokenV::GT, p + 1)
    } else if c == '&' {
        if char_at(s, p + 1) == '&' {
            (TokenV::AND, p + 2)
        } else {
            (TokenV::ILLEGAL, p + 1)
        }
    } else if c == '|' {
        if char_at(s, p + 1) == '|' {
            (TokenV::OR, p + 2)
        } else {
            (TokenV::ILLEGAL, p + 1)
        }
    } else if c == '{' {
        (TokenV::LBRACE, p + 1)
    } else if c == '}' {
        (TokenV::RBRACE, p + 1)
    } else if c == '"' {
        let close = string_end(s, p + 1);
        if close < s.len() {
            (TokenV::STRING(s.subrange(p + 1, close)), close + 1)
        } else {
            (TokenV::STRING(s.subrange(p + 1, s.len() as int)), s.len() as int)
        }
    } else if is_letter(c) {
        let end = ident_end(s, p);
        (word_token(s.subrange(p, end)), end)
    } else if is_digit(c) {
        let end = number_end(s, p);
        let value = dec_value(s.subrange(p, end));
        if value <= i32::MAX {
            (TokenV::INT(value as i32), end)
        } else {
            (TokenV::ILLEGAL, end)
        }
    } else {
        (TokenV::ILLEGAL, p + 1)
    }
}

/// Skipping whitespace never moves backwards, and never past the end.
pub proof fn lemma_skip_spaces(s: Seq<char>, pos: int)
    requires
        0 <= pos <= s.len(),
    ensures
        pos <= skip_spaces(s, pos) <= s.len(),
        !is_space(char_at(s, skip_spaces(s, pos))),
    decreases s.len() - pos,
{
    if pos < s.len() && is_space(s[pos]) {
        lemma_skip_spaces(s, pos + 1);
    }
}

/// An identifier ends no earlier than it starts and within the input.
pub proof fn lemma_ident_end(s: Seq<char>, pos: int)
    requires
        0 <= pos <= s.len(),
    ensures
        pos <= ident_end(s, pos) <= s.len(),
        !is_letter(char_at(s, ident_end(s, pos))),
    decreases s.len() - pos,
{
    if pos < s.len() && is_letter(s[pos]) {
        lemma_ident_end(s, pos + 1);
    }
}

/// A number ends no earlier than it starts and within the input.
pub proof fn lemma_number_end(s: Seq<char>, pos: int)
    requires
        0 <= pos <= s.len(),
    ensures
        pos <= number_end(s, pos) <= s.len(),
        !is_digit(char_at(s, number_end(s, pos))),
    decreases s.len() - pos,
{
    if pos < s.len() && is_digit(s[pos]) {
        lemma_number_end(s, pos + 1);
    }
}

/// A string's closing quote is at or after its start and within the input.
pub proof fn lemma_string_end(s: Seq<char>, pos: int)
    requires
        0 <= pos <= s.len(),
    ensures
        pos <= string_end(s, pos) <= s.len(),
    decreases s.len() - pos,
{
    if pos < s.len() && s[pos] != '"' {
        lemma_string_end(s, pos + 1);
    }
}

/// A line comment's end is at or after its start and within the input.
pub proof fn lemma_line_end(s: Seq<char>, pos: int)
    requires
        0 <= pos <= s.len(),
    ensures
        pos <= line_end(s, pos) <= s.len(),
    decreases s.len() - pos,
{
    if pos < s.len() && s[pos] != '\n' && s[pos] != '\0' {
        lemma_line_end(s, pos + 1);
    }
}

/// A block comment's end is at or after its start and within two of the end
/// of the input.
pub proof fn lemma_block_end(s: Seq<char>, pos: int)
    requires
        0 <= pos <= s.len(),
    ensures
        pos <= block_end(s, pos) <= s.len() + 1,
    decreases s.len() - pos,
{
    if pos < s.len() && s[pos] != '\0' && !(s[pos] == '*' && char_at(s, pos + 1) == '/') {
        lemma_block_end(s, pos + 1);
    }
}

/// Spec-level mirror of [`Lexer`]: the text being scanned and the position
/// of the current character.
pub struct LexV {
    pub text: Seq<char>,
    pub pos: int,
}

/// The lexer: scans the source text one character at a time.
pub struct Lexer {
    input: String,
    length: usize,
    position: usize,
}

impl View for Lexer {
    type V = LexV;

    closed spec fn view(&self) -> LexV {
        LexV { text: self.input@, pos: self.position as int }
    }
}

impl Lexer {
    /// Whether the lexer's cached length and position are consistent.
    pub closed spec fn wf(&self) -> bool {
        self.length == self.input@.len() && self.position <= self.length
    }

    /// A well-formed lexer's position sits within its text.
    pub proof fn lemma_wf(&self)
        requires
            self.wf(),
        ensures
            0 <= self@.pos <= self@.text.len(),
    {
    }

    /// A lexer at the start of the given source text.
    pub fn new(input: &str) -> (r: Lexer)
        ensures
            r.wf(),
            r@.text == input@,
            r@.pos == 0,
    {
        let owned = String::from_str(input);
        let length = owned.as_str().unicode_len();
        Lexer { input: owned, length, position: 0 }
    }

    /// The character under the cursor, or the zero character at the end.
    fn current(&self) -> (c: char)
        requires
            self.wf(),
        ensures
            c == char_at(self@.text, self@.pos),
    {
        if self.position < self.length {
            self.input.as_str().get_char(self.position)
        } else {
            '\0'
        }
    }

    /// The character after the cursor, or the zero character at the end.
    fn peek_char(&self) -> (c: char)
        requires
            self.wf(),
        ensures
            c == char_at(self@.text, self@.pos + 1),
    {
        if self.position < self.length && self.position + 1 < self.length {
            self.input.as_str().get_char(self.position + 1)
        } else {
            '\0'
        }
    }

    /// Advance the cursor one character, stopping at the end of the input.
    fn read_char(&mut self)
        requires
            old(self).wf(),
        ensures
            final(self).wf(),
            final(self)@.text == old(self)@.text,
            final(self)@.pos == if old(self)@.pos < old(self)@.text.len() {
                old(self)@.pos + 1
            } else {
                old(self)@.pos
            },
    {
        if self.position < self.length {
            self.position = self.position + 1;
        }
    }

    /// Skip to the first character that is not whitespace.
    fn skip_whitespace(&mut self)
        requires
            old(self).wf(),
        ensures
            final(self).wf(),
            final(self)@.text == old(self)@.text,
            final(self)@.pos == skip_spaces(old(self)@.text, old(self)@.pos),
    {
        loop
            invariant
                self.wf(),
                self@.text == old(self)@.text,
                old(self)@.pos <= self@.pos <= self@.text.len(),
                skip_spaces(self@.text, self@.pos) == skip_spaces(old(self)@.text, old(self)@.pos),
                        ensures
                self.wf(),
                self@.text == old(self)@.text,
                self@.pos == skip_spaces(old(self)@.text, old(self)@.pos),
            decreases self@.text.len() - self@.pos,
        {
            let c = self.current();
            if !(c == ' ' || c == '\t' || c == '\n' || c == '\r') {
                break;
            }
            self.read_char();
        }
    }

    /// Skip to the end of a line comment: the terminating newline (or a NUL
    /// or the end of the input) is left for the next scan.
    fn skip_single_line_comment(&mut self)
        requires
            old(self).wf(),
        ensures
            final(self).wf(),
            final(self)@.text == old(self)@.text,
            final(self)@.pos == line_end(old(self)@.text, old(self)@.pos),
    {
        loop
            invariant
                self.wf(),
                self@.text == old(self)@.text,
                old(self)@.pos <= self@.pos <= self@.text.len(),
                line_end(self@.text, self@.pos) == line_end(old(self)@.text, old(self)@.pos),
                        ensures
                self.wf(),
                self@.text == old(self)@.text,
                self@.pos == line_end(old(self)@.text, old(self)@.pos),
            decreases self@.text.len() - self@.pos,
        {
            let c = self.current();
            if self.position >= self.length || c == '\n' || c == '\0' {
                break;
            }
            self.read_char();
        }
    }

    /// Skip past the `*/` that closes a block comment, or to the end of the
    /// input when the comment is unterminated.
    fn skip_multi_line_comment(&mut self)
        requires
            old(self).wf(),
            old(self)@.pos < old(self)@.text.len(),
        ensures
            final(self).wf(),
            final(self)@.text == old(self)@.text,
            final(self)@.pos == block_end(old(self)@.text, old(self)@.pos + 1),
    {
        self.read_char();
        loop
            invariant
                self.wf(),
                self@.text == old(self)@.text,
                old(self)@.pos + 1 <= self@.pos <= self@.text.len(),
                block_end(self@.text, self@.pos) == block_end(
                    old(self)@.text,
                    old(self)@.pos + 1,
                ),
                        ensures
                self.wf(),
                self@.text == old(self)@.text,
                self@.pos == block_end(old(self)@.text, old(self)@.pos + 1),
            decreases self@.text.len() - self@.pos,
        {
            if self.position >= self.length {
                break;
            }
            let c = self.current();
            if c == '\0' {
                self.read_char();
                return;
            }
            if c == '*' && self.peek_char() == '/' {
                self.read_char();
                self.read_char();
                return;
            }
            self.read_char();
        }
    }

    /// Read an identifier word starting at the cursor.
    fn read_identifier(&mut self) -> (r: String)
        requires
            old(self).wf(),
        ensures
            final(self).wf(),
            final(self)@.text == old(self)@.text,
            final(self)@.pos == ident_end(old(self)@.text, old(self)@.pos),
            r@ == old(self)@.text.subrange(
                old(self)@.pos,
                ident_end(old(self)@.text, old(self)@.pos),
            ),
    {
        let mut word = String::new();
        loop
            invariant
                self.wf(),
                self@.text == old(self)@.text,
                old(self)@.pos <= self@.pos <= self@.text.len(),
                ident_end(self@.text, self@.pos) == ident_end(old(self)@.text, old(self)@.pos),
                word@ == self@.text.subrange(old(self)@.pos, self@.pos),
                        ensures
                self.wf(),
                self@.text == old(self)@.text,
                self@.pos == ident_end(old(self)@.text, old(self)@.pos),
                word@ == self@.text.subrange(old(self)@.pos, self@.pos),
            decreases self@.text.len() - self@.pos,
        {
            let c = self.current();
            let u = c as u32;
            if !((97 <= u && u <= 122) || (65 <= u && u <= 90) || c == '_') {
                break;
            }
            word.push(c);
            self.read_char();
            proof {
                assert(word@ =~= self@.text.subrange(old(self)@.pos, self@.pos));
            }
        }
        word
    }

    /// Read an integer literal starting at the cursor.  The value is `None`
    /// when the literal does not fit in 32 bits.
    fn read_number(&mut self) -> (r: Option<i32>)
        requires
            old(self).wf(),
        ensures
            final(self).wf(),
            final(self)@.text == old(self)@.text,
            final(self)@.pos == number_end(old(self)@.text, old(self)@.pos),
            ({
                let value = dec_value(
                    old(self)@.text.subrange(
                        old(self)@.pos,
                        number_end(old(self)@.text, old(self)@.pos),
                    ),
                );
                match r {
                    Some(v) => value <= i32::MAX && v == value as i32,
                    None => value > i32::MAX,
                }
            }),
    {
        let mut acc: u64 = 0;
        proof {
            assert(old(self)@.text.subrange(old(self)@.pos, old(self)@.pos)
                =~= Seq::<char>::empty());
        }
        loop
            invariant
                self.wf(),
                self@.text == old(self)@.text,
                old(self)@.pos <= self@.pos <= self@.text.len(),
                number_end(self@.text, self@.pos) == number_end(old(self)@.text, old(self)@.pos),
                acc as int == ({
                    let seen = dec_value(self@.text.subrange(old(self)@.pos, self@.pos));
                    if seen > i32::MAX {
                        0x8000_0000
                    } else {
                        seen
                    }
                }),
                dec_value(self@.text.subrange(old(self)@.pos, self@.pos)) >= 0,
                        ensures
                self.wf(),
                self@.text == old(self)@.text,
                self@.pos == number_end(old(self)@.text, old(self)@.pos),
                acc as int == ({
                    let seen = dec_value(self@.text.subrange(old(self)@.pos, self@.pos));
                    if seen > i32::MAX {
                        0x8000_0000
                    } else {
                        seen
                    }
                }),
            decreases self@.text.len() - self@.pos,
        {
            let c = self.current();
            let u = c as u32;
            if !(48 <= u && u <= 57) {
                break;
            }
            let d: u64 = (u - 48) as u64;
            let ghost seen_before = self@.text.subrange(old(self)@.pos, self@.pos);
            let next: u64 = acc * 10 + d;
            acc = if next > 0x7fff_ffff {
                0x8000_0000u64
            } else {
                next
            };
            self.read_char();
            proof {
                let seen_now = self@.text.subrange(old(self)@.pos, self@.pos);
                assert(seen_now.drop_last() =~= seen_before);
                assert(dec_value(seen_now) == dec_value(seen_before) * 10 + digit_value(
                    seen_now.last(),
                ));
            }
        }
        if acc > 0x7fff_ffff {
            None
        } else {
            Some(acc as i32)
        }
    }

    /// Read a string literal's contents; the cursor starts at the opening
    /// quote and stops at the closing quote, or at the end of the input when
    /// the string is unterminated.
    fn read_string(&mut self) -> (r: String)
        requires
            old(self).wf(),
            old(self)@.pos < old(self)@.text.len(),
        ensures
            final(self).wf(),
            final(self)@.text == old(self)@.text,
            final(self)@.pos == string_end(old(self)@.text, old(self)@.pos + 1),
            r@ == old(self)@.text.subrange(
                old(self)@.pos + 1,
                string_end(old(self)@.text, old(self)@.pos + 1),
            ),
    {
        let mut contents = String::new();
        self.read_char();
        proof {
            assert(contents@ =~= self@.text.subrange(old(self)@.pos + 1, self@.pos));
        }
        loop
            invariant
                self.wf(),
                self@.text == old(self)@.text,
                old(self)@.pos + 1 <= self@.pos <= self@.text.len(),
                string_end(self@.text, self@.pos) == string_end(
                    old(self)@.text,
                    old(self)@.pos + 1,
                ),
                contents@ == self@.text.subrange(old(self)@.pos + 1, self@.pos),
                        ensures
                self.wf(),
                self@.text == old(self)@.text,
                self@.pos == string_end(old(self)@.text, old(self)@.pos + 1),
                contents@ == self@.text.subrange(old(self)@.pos + 1, self@.pos),
            decreases self@.text.len() - self@.pos,
        {
            if self.position >= self.length {
                break;
            }
            let c = self.current();
            if c == '"' {
                break;
            }
            contents.push(c);
            self.read_char();
            proof {
                assert(contents@ =~= self@.text.subrange(old(self)@.pos + 1, self@.pos));
            }
        }
        contents
    }

    /// Scan and return the next token, advancing past it.
    pub fn next_token(&mut self) -> (t: Token)
        requires
            old(self).wf(),
        ensures
            final(self).wf(),
            final(self)@.text == old(self)@.text,
            (t@, final(self)@.pos) == scan_token(old(self)@.text, old(self)@.pos),
        decreases old(self)@.text.len() - old(self)@.pos,
    {
        proof {
            lemma_skip_spaces(self@.text, self@.pos);
        }
        self.skip_whitespace();
        let c = self.current();
        let token: Token;
        match c {
            '=' => {
                if self.peek_char() == '=' {
                    self.read_char();
                    token = Token::EQ;
                } else {
                    token = Token::ASSIGN;
                }
            },
            '!' => {
                if self.peek_char() == '=' {
                    self.read_char();
                    token = Token::NOT_EQ;
                } else {
                    token = Token::BANG;
                }
            },
            ';' => {
                token = Token::SEMICOLON;
            },
            '(' => {
                token = Token::LPAREN;
            },
            ')' => {
                token = Token::RPAREN;
            },
            '[' => {
                token = Token::LBRACKET;
            },
            ']' => {
                token = Token::RBRACKET;
            },
            ',' => {
                token = Token::COMMA;
            },
            '+' => {
                token = Token::PLUS;
            },
            '-' => {
                token = Token::MINUS;
            },
            '/' => {
                if self.peek_char() == '/' {
                    proof {
                        assert(line_end(self@.text, self@.pos) == line_end(
                            self@.text,
                            self@.pos + 1,
                        ));
                        assert(line_end(self@.text, self@.pos + 1) == line_end(
                            self@.text,
                            self@.pos + 2,
                        ));
                        lemma_line_end(self@.text, self@.pos + 2);
                    }
                    self.skip_single_line_comment();
                    return self.next_token();
                } else if self.peek_char() == '*' {
                    proof {
                        lemma_block_end(self@.text, self@.pos + 2);
                    }
                    self.skip_multi_line_comment();
                    return self.next_token();
                } else {
                    token = Token::SLASH;
                }
            },
            '*' => {
                token = Token::ASTERISK;
            },
            '<' => {
                token = Token::LT;
            },
            '>' => {
                token = Token::GT;
            },
            '&' => {
                if self.peek_char() == '&' {
                    self.read_char();
                    token = Token::AND;
                } else {
                    token = Token::ILLEGAL;
                }
            },
            '|' => {
                if self.peek_char() == '|' {
                    self.read_char();
                    token = Token::OR;
                } else {
                    token = Token::ILLEGAL;
                }
            },
            '{' => {
                token = Token::LBRACE;
            },
            '}' => {
                token = Token::RBRACE;
            },
            '\0' => {
                token = Token::EOF;
            },
            '"' => {
                let contents = self.read_string();
                token = Token::STRING(contents);
            },
            ch => {
                let u = ch as u32;
                if (97 <= u && u <= 122) || (65 <= u && u <= 90) || ch == '_' {
                    let word = self.read_identifier();
                    if str_eq_word(&word, "let") {
                        return Token::LET;
                    } else if str_eq_word(&word, "fn") {
                        return Token::FUNCTION;
                    } else if str_eq_word(&word, "true") {
                        return Token::BOOLEAN(true);
                    } else if str_eq_word(&word, "false") {
                        return Token::BOOLEAN(false);
                    } else if str_eq_word(&word, "if") {
                        return Token::IF;
                    } else if str_eq_word(&word, "while") {
                        return Token::WHILE;
                    } else if str_eq_word(&word, "else") {
                        return Token::ELSE;
                    } else if str_eq_word(&word, "return") {
                        return Token::RETURN;
                    } else {
                        return Token::IDENT(word);
                    }
                } else if 48 <= u && u <= 57 {
                    match self.read_number() {
                        Some(value) => {
                            return Token::INT(value);
                        },
                        None => {
                            return Token::ILLEGAL;
                        },
                    }
                } else {
                    token = Token::ILLEGAL;
                }
            },
        }
        self.read_char();
        token
    }
}

fn str_eq_word(word: &String, expected: &str) -> (r: bool)
    ensures
        r == (word@ == expected@),
{
    crate::display::str_eq(word.as_str(), expected)
}

/// Scanning a token never moves backwards, always stays within one past the
/// end, and makes progress whenever there is input left.
pub proof fn lemma_scan_token(s: Seq<char>, pos: int)
    requires
        0 <= pos <= s.len(),
    ensures
        pos <= scan_token(s, pos).1 <= s.len(),
        scan_token(s, pos).1 > pos || scan_token(s, pos).0 is EOF,
    decreases s.len() - pos,
{
    lemma_skip_spaces(s, pos);
    let p = skip_spaces(s, pos);
    if p < s.len() {
        let c = s[p];
        if c == '/' && char_at(s, p + 1) == '/' {
            if p + 2 <= s.len() {
                lemma_line_end(s, p + 2);
            }
            let r0 = line_end(s, p);
            let r1 = if r0 > p + 1 {
                r0
            } else {
                p + 2
            };
            let resume = if r1 > s.len() {
                s.len() as int
            } else {
                r1
            };
            lemma_scan_token(s, resume);
        } else if c == '/' && char_at(s, p + 1) == '*' {
            if p + 2 <= s.len() {
                lemma_block_end(s, p + 2);
            }
            let r0 = block_end(s, p + 1);
            let r1 = if r0 > p + 1 {
                r0
            } else {
                p + 2
            };
            let resume = if r1 > s.len() {
                s.len() as int
            } else {
                r1
            };
            lemma_scan_token(s, resume);
        } else if is_letter(c) {
            lemma_ident_end(s, p);
        } else if is_digit(c) {
            lemma_number_end(s, p);
        } else if c == '"' {
            lemma_string_end(s, p + 1);
        }
    }
}

} // verus!
