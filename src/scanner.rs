use vstd::prelude::*;
use crate::syntax::{Tok, Token, toks_model};

verus! {

/// Why a text could not be turned into tokens.
#[derive(Debug, PartialEq, Eq, Clone, Copy)]
pub enum ScanError {
    /// A character that starts no token, with its position (in characters).
    UnexpectedChar { ch: char, pos: usize },
    /// A run of digits, starting at `pos`, whose value does not fit in `i32`.
    NumberTooLarge { pos: usize },
}

pub open spec fn is_digit(c: char) -> bool {
    '0' <= c && c <= '9'
}

pub open spec fn is_lower(c: char) -> bool {
    'a' <= c && c <= 'z'
}

/// The token of a one-character punctuation symbol.
pub open spec fn punct(c: char) -> Option<Tok> {
    if c == ',' {
        Some(Tok::Comma)
    } else if c == '+' {
        Some(Tok::Plus)
    } else if c == '-' {
        Some(Tok::Minus)
    } else if c == '*' {
        Some(Tok::Star)
    } else if c == '/' {
        Some(Tok::Slash)
    } else if c == '(' {
        Some(Tok::LPar)
    } else if c == ')' {
        Some(Tok::RPar)
    } else if c == '{' {
        Some(Tok::LBrace)
    } else if c == '}' {
        Some(Tok::RBrace)
    } else if c == '=' {
        Some(Tok::Eq)
    } else if c == ';' {
        Some(Tok::Semicolon)
    } else {
        None
    }
}

/// End of the run of digits that starts at `k`.
pub open spec fn digits_end(s: Seq<char>, k: int) -> int
    decreases s.len() - k,
{
    if 0 <= k < s.len() && is_digit(s[k]) {
        digits_end(s, k + 1)
    } else {
        k
    }
}

/// End of the run of lowercase letters that starts at `k`.
pub open spec fn letters_end(s: Seq<char>, k: int) -> int
    decreases s.len() - k,
{
    if 0 <= k < s.len() && is_lower(s[k]) {
        letters_end(s, k + 1)
    } else {
        k
    }
}

pub open spec fn digit_value(c: char) -> int {
    (c as u32) as int - ('0' as u32) as int
}

/// Decimal value of the digits `s[i..j]`.
pub open spec fn digits_value(s: Seq<char>, i: int, j: int) -> int
    decreases j - i,
{
    if j <= i {
        0
    } else {
        digits_value(s, i, j - 1) * 10 + digit_value(s[j - 1])
    }
}

/// A word is a reserved word's token or an identifier.
pub open spec fn word_tok(w: Seq<char>) -> Tok {
    if w == seq!['i', 'f'] {
        Tok::If
    } else if w == seq!['e', 'l', 's', 'e'] {
        Tok::Else
    } else if w == seq!['f', 'n'] {
        Tok::Fn
    } else if w == seq!['r', 'e', 't', 'u', 'r', 'n'] {
        Tok::Return
    } else {
        Tok::Ident(w)
    }
}

/// `t` in front of the tokens of `r`, or the error of `r`.
pub open spec fn cons(t: Tok, r: Result<Seq<Tok>, ScanError>) -> Result<Seq<Tok>, ScanError> {
    match r {
        Ok(v) => Ok(seq![t] + v),
        Err(e) => Err(e),
    }
}

/// `p` in front of the tokens of `r`, or the error of `r`.
pub open spec fn prepend(p: Seq<Tok>, r: Result<Seq<Tok>, ScanError>) -> Result<Seq<Tok>, ScanError> {
    match r {
        Ok(v) => Ok(p + v),
        Err(e) => Err(e),
    }
}

proof fn lemma_digits_end(s: Seq<char>, k: int)
    ensures
        digits_end(s, k) >= k,
        k <= s.len() ==> digits_end(s, k) <= s.len(),
    decreases s.len() - k,
{
    if 0 <= k < s.len() && is_digit(s[k]) {
        lemma_digits_end(s, k + 1);
    }
}

proof fn lemma_letters_end(s: Seq<char>, k: int)
    ensures
        letters_end(s, k) >= k,
        k <= s.len() ==> letters_end(s, k) <= s.len(),
    decreases s.len() - k,
{
    if 0 <= k < s.len() && is_lower(s[k]) {
        lemma_letters_end(s, k + 1);
    }
}

/// First position at or after `p` that does not hold a space.
pub open spec fn skip_spaces(s: Seq<char>, p: int) -> int
    decreases s.len() - p,
{
    if 0 <= p < s.len() && s[p] == ' ' {
        skip_spaces(s, p + 1)
    } else {
        p
    }
}

/// The token that starts at `i`, a non-space character, and the position
/// just after it.
pub open spec fn token_at(s: Seq<char>, i: int) -> Result<(Tok, int), ScanError> {
    if punct(s[i]) is Some {
        Ok((punct(s[i])->0, i + 1))
    } else if is_digit(s[i]) {
        let j = digits_end(s, i + 1);
        let v = digits_value(s, i, j);
        if v > i32::MAX {
            Err(ScanError::NumberTooLarge { pos: i as usize })
        } else {
            Ok((Tok::Number(v as i32), j))
        }
    } else if is_lower(s[i]) {
        let j = letters_end(s, i + 1);
        Ok((word_tok(s.subrange(i, j)), j))
    } else {
        Err(ScanError::UnexpectedChar { ch: s[i], pos: i as usize })
    }
}

/// The next token at or after `p`, past any spaces, with the position just
/// after it; `None` when only spaces are left.
pub open spec fn next_tok(s: Seq<char>, p: int) -> Result<Option<(Tok, int)>, ScanError> {
    let i = skip_spaces(s, p);
    if i < 0 || i >= s.len() {
        Ok(None)
    } else {
        match token_at(s, i) {
            Ok((t, j)) => Ok(Some((t, j))),
            Err(e) => Err(e),
        }
    }
}

proof fn lemma_skip_spaces(s: Seq<char>, p: int)
    ensures
        skip_spaces(s, p) >= p,
        p <= s.len() ==> skip_spaces(s, p) <= s.len(),
    decreases s.len() - p,
{
    if 0 <= p < s.len() && s[p] == ' ' {
        lemma_skip_spaces(s, p + 1);
    }
}

/// A token found at or after `p` ends after `p`, inside the text.
proof fn lemma_next_tok_advances(s: Seq<char>, p: int)
    requires
        0 <= p <= s.len(),
    ensures
        next_tok(s, p) matches Ok(Some((_, j))) ==> p < j <= s.len(),
{
    let i = skip_spaces(s, p);
    lemma_skip_spaces(s, p);
    lemma_digits_end(s, i + 1);
    lemma_letters_end(s, i + 1);
}

#[via_fn]
proof fn scan_from_decreases(s: Seq<char>, p: int) {
    if 0 <= p <= s.len() {
        lemma_next_tok_advances(s, p);
    }
}

/// The tokens of `s[p..]`, scanned left to right.
pub open spec fn scan_from(s: Seq<char>, p: int) -> Result<Seq<Tok>, ScanError>
    decreases s.len() - p via scan_from_decreases
{
    if p < 0 || p > s.len() {
        Ok(Seq::empty())
    } else {
        match next_tok(s, p) {
            Ok(None) => Ok(Seq::empty()),
            Ok(Some((t, j))) => cons(t, scan_from(s, j)),
            Err(e) => Err(e),
        }
    }
}

struct Scanner<'a> {
    text: &'a str,
    input: Vec<char>,
    pos: usize,
}

impl<'a> Scanner<'a> {
    fn new(s: &'a str) -> (r: Self)
        ensures
            r.text@ == s@,
            r.input@ == s@,
            r.pos == 0,
    {
        let n = s.unicode_len();
        let mut input: Vec<char> = Vec::new();
        let mut k: usize = 0;
        while k < n
            invariant
                n == s@.len(),
                k <= n,
                input@ == s@.subrange(0, k as int),
            decreases n - k,
        {
            input.push(s.get_char(k));
            k = k + 1;
            assert(input@ =~= s@.subrange(0, k as int));
        }
        assert(input@ =~= s@);
        Scanner { text: s, input, pos: 0 }
    }

    /// Token of the word `input[start..end]`.
    fn word(&self, start: usize, end: usize) -> (r: Token)
        requires
            self.input@ == self.text@,
            start <= end <= self.input@.len(),
        ensures
            r@ == word_tok(self.input@.subrange(start as int, end as int)),
    {
        let w = Ghost(self.input@.subrange(start as int, end as int));
        let n = end - start;
        let c = &self.input;
        if n == 2 && c[start] == 'i' && c[start + 1] == 'f' {
            assert(w@ =~= seq!['i', 'f']);
            Token::IF
        } else if n == 4 && c[start] == 'e' && c[start + 1] == 'l' && c[start + 2] == 's' && c[start
            + 3] == 'e' {
            assert(w@ =~= seq!['e', 'l', 's', 'e']);
            Token::ELSE
        } else if n == 2 && c[start] == 'f' && c[start + 1] == 'n' {
            assert(w@ =~= seq!['f', 'n']);
            Token::FN
        } else if n == 6 && c[start] == 'r' && c[start + 1] == 'e' && c[start + 2] == 't' && c[start
            + 3] == 'u' && c[start + 4] == 'r' && c[start + 5] == 'n' {
            assert(w@ =~= seq!['r', 'e', 't', 'u', 'r', 'n']);
            Token::RETURN
        } else {
            assert(w@ != seq!['i', 'f']) by {
                if w@ == seq!['i', 'f'] {
                    assert(seq!['i', 'f'].len() == 2);
                }
            }
            assert(w@ != seq!['e', 'l', 's', 'e']) by {
                if w@ == seq!['e', 'l', 's', 'e'] {
                    assert(seq!['e', 'l', 's', 'e'].len() == 4);
                }
            }
            assert(w@ != seq!['f', 'n']) by {
                if w@ == seq!['f', 'n'] {
                    assert(seq!['f', 'n'].len() == 2);
                }
            }
            assert(w@ != seq!['r', 'e', 't', 'u', 'r', 'n']) by {
                if w@ == seq!['r', 'e', 't', 'u', 'r', 'n'] {
                    assert(seq!['r', 'e', 't', 'u', 'r', 'n'].len() == 6);
                }
            }
            Token::IDENT(self.text.substring_char(start, end).to_owned())
        }
    }

    /// Reads the next token, skipping spaces; `None` at the end of the text.
    fn next(&mut self) -> (r: Result<Option<Token>, ScanError>)
        requires
            old(self).input@ == old(self).text@,
            old(self).pos <= old(self).input@.len(),
        ensures
            final(self).input == old(self).input,
            final(self).text == old(self).text,
            final(self).pos <= final(self).input@.len(),
            match next_tok(old(self).input@, old(self).pos as int) {
                Ok(None) => r matches Ok(None) && final(self).pos == final(self).input@.len(),
                Ok(Some((t, j))) => r matches Ok(Some(tok)) && tok@ == t && final(self).pos == j,
                Err(e) => r == Err::<Option<Token>, ScanError>(e),
            },
    {
        let ghost s = self.input@;
        let ghost p0 = self.pos as int;
        let n = self.input.len();
        while self.pos < n && self.input[self.pos] == ' '
            invariant
                self.input@ == s,
                self.input == old(self).input,
                self.text == old(self).text,
                n == s.len(),
                p0 <= self.pos <= n,
                skip_spaces(s, p0) == skip_spaces(s, self.pos as int),
            decreases n - self.pos,
        {
            self.pos = self.pos + 1;
        }
        if self.pos >= n {
            return Ok(None);
        }
        let i = self.pos;
        let c = self.input[i];
        let p = match c {
            ',' => Some(Token::COMMA),
            '+' => Some(Token::PLUS),
            '-' => Some(Token::MINUS),
            '*' => Some(Token::STAR),
            '/' => Some(Token::SLASH),
            '(' => Some(Token::LPAR),
            ')' => Some(Token::RPAR),
            '{' => Some(Token::LBRACE),
            '}' => Some(Token::RBRACE),
            '=' => Some(Token::EQ),
            ';' => Some(Token::SEMICOLON),
            _ => None,
        };
        if let Some(t) = p {
            self.pos = i + 1;
            return Ok(Some(t));
        }
        if '0' <= c && c <= '9' {
            let mut v: i32 = 0;
            let mut too_large = false;
            self.pos = i + 1;
            v = (c as u32 - '0' as u32) as i32;
            assert(digits_value(s, i as int, i as int) == 0);
            assert(digits_value(s, i as int, i + 1) == digit_value(c));
            while self.pos < n && '0' <= self.input[self.pos] && self.input[self.pos] <= '9'
                invariant
                    self.input@ == s,
                    self.input == old(self).input,
                    self.text == old(self).text,
                    n == s.len(),
                    i < self.pos <= n,
                    digits_end(s, i + 1) == digits_end(s, self.pos as int),
                    !too_large ==> v == digits_value(s, i as int, self.pos as int),
                    too_large ==> digits_value(s, i as int, self.pos as int) > i32::MAX,
                    digits_value(s, i as int, self.pos as int) >= 0,
                decreases n - self.pos,
            {
                let d = self.input[self.pos];
                let w: i64 = v as i64 * 10 + (d as u32 - '0' as u32) as i64;
                if too_large || w > i32::MAX as i64 {
                    too_large = true;
                } else {
                    v = w as i32;
                }
                self.pos = self.pos + 1;
            }
            if too_large {
                return Err(ScanError::NumberTooLarge { pos: i });
            }
            return Ok(Some(Token::NUMBER(v)));
        }
        if 'a' <= c && c <= 'z' {
            self.pos = i + 1;
            while self.pos < n && 'a' <= self.input[self.pos] && self.input[self.pos] <= 'z'
                invariant
                    self.input@ == s,
                    self.input == old(self).input,
                    self.text == old(self).text,
                    n == s.len(),
                    i < self.pos <= n,
                    letters_end(s, i + 1) == letters_end(s, self.pos as int),
                decreases n - self.pos,
            {
                self.pos = self.pos + 1;
            }
            return Ok(Some(self.word(i, self.pos)));
        }
        Err(ScanError::UnexpectedChar { ch: c, pos: i })
    }
}

/// Turns source text into its tokens, left to right.
pub fn scanner(s: &str) -> (r: Result<Vec<Token>, ScanError>)
    ensures
        match r {
            Ok(v) => scan_from(s@, 0) == Ok::<Seq<Tok>, ScanError>(toks_model(v@)),
            Err(e) => scan_from(s@, 0) == Err::<Seq<Tok>, ScanError>(e),
        },
{
    let mut result: Vec<Token> = Vec::new();
    let mut sc = Scanner::new(s);
    loop
        invariant
            sc.input@ == s@,
            sc.text@ == s@,
            sc.pos <= sc.input@.len(),
            scan_from(s@, 0) == prepend(toks_model(result@), scan_from(s@, sc.pos as int)),
        decreases sc.input@.len() - sc.pos,
    {
        let ghost p = sc.pos as int;
        match sc.next() {
            Ok(Some(t)) => {
                proof {
                    lemma_next_tok_advances(s@, p);
                    assert(toks_model(result@.push(t)) =~= toks_model(result@) + seq![t@]);
                    let r = scan_from(s@, sc.pos as int);
                    if r is Ok {
                        assert(toks_model(result@) + (seq![t@] + r->Ok_0) =~= toks_model(
                            result@.push(t),
                        ) + r->Ok_0);
                    }
                }
                result.push(t);
            },
            Ok(None) => {
                assert(toks_model(result@) + Seq::<Tok>::empty() =~= toks_model(result@));
                return Ok(result);
            },
            Err(e) => {
                return Err(e);
            },
        }
    }
}

} // verus!
