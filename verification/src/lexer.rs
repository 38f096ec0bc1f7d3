use vstd::prelude::*;
use crate::token::{CompileError, Token};

verus! {

/// The characters with the Unicode `White_Space` property, the set that
/// `char::is_whitespace` recognises.
pub open spec fn is_ws_char(c: char) -> bool {
    c == '\u{9}' || c == '\u{a}' || c == '\u{b}' || c == '\u{c}' || c == '\u{d}'
        || c == ' ' || c == '\u{85}' || c == '\u{a0}' || c == '\u{1680}'
        || c == '\u{2000}' || c == '\u{2001}' || c == '\u{2002}' || c == '\u{2003}'
        || c == '\u{2004}' || c == '\u{2005}' || c == '\u{2006}' || c == '\u{2007}'
        || c == '\u{2008}' || c == '\u{2009}' || c == '\u{200a}' || c == '\u{2028}'
        || c == '\u{2029}' || c == '\u{202f}' || c == '\u{205f}' || c == '\u{3000}'
}

/// An ASCII decimal digit.
pub open spec fn is_digit_char(c: char) -> bool {
    48 <= c as u32 <= 57
}

/// The numeric value of an ASCII decimal digit.
pub open spec fn digit_val(c: char) -> nat {
    (c as u32 - 48) as nat
}

/// Whitespace check, the decision the lexer makes before each token.
pub fn is_ws(c: char) -> (r: bool)
    ensures
        r == is_ws_char(c),
{
    c == '\u{9}' || c == '\u{a}' || c == '\u{b}' || c == '\u{c}' || c == '\u{d}'
        || c == ' ' || c == '\u{85}' || c == '\u{a0}' || c == '\u{1680}'
        || c == '\u{2000}' || c == '\u{2001}' || c == '\u{2002}' || c == '\u{2003}'
        || c == '\u{2004}' || c == '\u{2005}' || c == '\u{2006}' || c == '\u{2007}'
        || c == '\u{2008}' || c == '\u{2009}' || c == '\u{200a}' || c == '\u{2028}'
        || c == '\u{2029}' || c == '\u{202f}' || c == '\u{205f}' || c == '\u{3000}'
}

/// Digit check.
pub fn is_digit(c: char) -> (r: bool)
    ensures
        r == is_digit_char(c),
{
    let u = c as u32;
    48 <= u && u <= 57
}

/// The first position at or after `pos` holding no whitespace character.
pub open spec fn spec_skip_ws(s: Seq<char>, pos: nat) -> nat
    decreases s.len() - pos,
    when pos <= s.len()
{
    if pos < s.len() && is_ws_char(s[pos as int]) {
        spec_skip_ws(s, pos + 1)
    } else {
        pos
    }
}

/// The end of the maximal digit run starting at `pos`.
pub open spec fn digit_run_end(s: Seq<char>, pos: nat) -> nat
    decreases s.len() - pos,
    when pos <= s.len()
{
    if pos < s.len() && is_digit_char(s[pos as int]) {
        digit_run_end(s, pos + 1)
    } else {
        pos
    }
}

/// The value of the digit characters `s[start..end]`, leading zeros allowed.
pub open spec fn digits_value(s: Seq<char>, start: nat, end: nat) -> nat
    decreases end - start,
{
    if start < end {
        digits_value(s, start, (end - 1) as nat) * 10 + digit_val(s[end - 1])
    } else {
        0
    }
}

/// The token found at `pos` after skipping whitespace, and the position just
/// past it. Digits form a maximal run read as a 64-bit signed literal, a run
/// whose value exceeds that range being `LiteralOverflow`; the seven
/// single-character tokens map one to one; `p` must begin the keyword
/// `print` exactly, else `MalformedKeyword`; any other character is
/// `InvalidCharacter`; the end of input yields `EOF`.
pub open spec fn spec_next_token(s: Seq<char>, pos: nat) -> (Result<Token, CompileError>, nat) {
    let p = spec_skip_ws(s, pos);
    if p >= s.len() {
        (Ok(Token::EOF), s.len())
    } else {
        let c = s[p as int];
        if is_digit_char(c) {
            let e = digit_run_end(s, p);
            if digits_value(s, p, e) <= i64::MAX as nat {
                (Ok(Token::Int(digits_value(s, p, e) as i64)), e)
            } else {
                (Err(CompileError::LiteralOverflow), e)
            }
        } else if c == '+' {
            (Ok(Token::Plus), p + 1)
        } else if c == '-' {
            (Ok(Token::Minus), p + 1)
        } else if c == '*' {
            (Ok(Token::Mul), p + 1)
        } else if c == '/' {
            (Ok(Token::Div), p + 1)
        } else if c == '(' {
            (Ok(Token::LParen), p + 1)
        } else if c == ')' {
            (Ok(Token::RParen), p + 1)
        } else if c == ';' {
            (Ok(Token::Semi), p + 1)
        } else if c == 'p' {
            if p + 5 <= s.len() && s.subrange(p as int, p as int + 5) == "print"@ {
                (Ok(Token::Print), p + 5)
            } else {
                (Err(CompileError::MalformedKeyword), p)
            }
        } else {
            (Err(CompileError::InvalidCharacter), p)
        }
    }
}

/// The lexer: a cursor over the character sequence of the source text.
pub struct Lexer {
    pub input: Vec<char>,
    pub pos: usize,
}

impl Lexer {
    /// The cursor never passes the end of the input.
    pub open spec fn wf(self) -> bool {
        self.pos <= self.input.len()
    }

    pub fn new(input: String) -> (r: Lexer)
        ensures
            r.input@ == input@,
            r.pos == 0,
    {
        let s: &str = input.as_str();
        let n: usize = s.unicode_len();
        let mut v: Vec<char> = Vec::new();
        let mut i: usize = 0;
        while i < n
            invariant
                i <= n,
                n == s@.len(),
                s@ == input@,
                v@ == input@.subrange(0, i as int),
            decreases n - i,
        {
            let c = s.get_char(i);
            v.push(c);
            i += 1;
            proof {
                assert(v@ =~= input@.subrange(0, i as int));
            }
        }
        proof {
            assert(v@ =~= input@);
        }
        Lexer { input: v, pos: 0 }
    }

    /// The character under the cursor, or nothing at the end of input.
    pub fn current(&self) -> (r: Option<char>)
        ensures
            r == (if self.pos < self.input.len() {
                Some(self.input@[self.pos as int])
            } else {
                None::<char>
            }),
    {
        if self.pos < self.input.len() {
            Some(self.input[self.pos])
        } else {
            None
        }
    }

    /// Moves the cursor one character forward.
    pub fn advance(&mut self)
        requires
            old(self).pos < old(self).input.len(),
        ensures
            final(self).input@ == old(self).input@,
            final(self).pos == old(self).pos + 1,
    {
        self.pos = self.pos + 1;
    }

    /// Moves the cursor past the run of whitespace under it.
    pub fn skip_whitespace(&mut self)
        requires
            old(self).wf(),
        ensures
            final(self).wf(),
            final(self).input@ == old(self).input@,
            final(self).pos as nat == spec_skip_ws(old(self).input@, old(self).pos as nat),
    {
        loop
            invariant
                self.wf(),
                self.input@ == old(self).input@,
                spec_skip_ws(self.input@, self.pos as nat) == spec_skip_ws(
                    old(self).input@,
                    old(self).pos as nat,
                ),
            decreases self.input.len() - self.pos,
        {
            match self.current() {
                Some(c) => {
                    if is_ws(c) {
                        self.advance();
                    } else {
                        return ;
                    }
                },
                None => {
                    return ;
                },
            }
        }
    }

    /// Reads the maximal digit run under the cursor as a 64-bit signed
    /// literal. Returns its value exactly when it fits the range, and
    /// `LiteralOverflow` otherwise; either way the cursor ends just past the
    /// run.
    pub fn integer(&mut self) -> (r: Result<i64, CompileError>)
        requires
            old(self).wf(),
            old(self).pos < old(self).input.len(),
            is_digit_char(old(self).input@[old(self).pos as int]),
        ensures
            final(self).wf(),
            final(self).input@ == old(self).input@,
            final(self).pos as nat == digit_run_end(old(self).input@, old(self).pos as nat),
            ({
                let v = digits_value(
                    old(self).input@,
                    old(self).pos as nat,
                    digit_run_end(old(self).input@, old(self).pos as nat),
                );
                if v <= i64::MAX as nat {
                    r == Ok::<i64, CompileError>(v as i64)
                } else {
                    r == Err::<i64, CompileError>(CompileError::LiteralOverflow)
                }
            }),
    {
        let ghost start = self.pos as nat;
        let mut acc: u64 = 0;
        let mut over: bool = false;
        let limit: u64 = 9223372036854775807;

        loop
            invariant
                self.wf(),
                self.input@ == old(self).input@,
                start <= self.pos as nat <= self.input@.len(),
                digit_run_end(self.input@, self.pos as nat) == digit_run_end(
                    self.input@,
                    start,
                ),
                !over ==> acc as nat == digits_value(self.input@, start, self.pos as nat)
                    && acc <= limit,
                over ==> digits_value(self.input@, start, self.pos as nat) > limit as nat,
                limit == i64::MAX as u64,
            ensures
                self.wf(),
                self.input@ == old(self).input@,
                self.pos as nat == digit_run_end(self.input@, start),
                !over ==> acc as nat == digits_value(self.input@, start, self.pos as nat)
                    && acc <= limit,
                over ==> digits_value(self.input@, start, self.pos as nat) > limit as nat,
            decreases self.input.len() - self.pos,
        {
            match self.current() {
                Some(c) => {
                    if is_digit(c) {
                        let u: u32 = c as u32;
                        let d: u64 = (u - 48) as u64;
                        proof {
                            assert(d == digit_val(c));
                            assert(d <= 9);
                        }
                        if !over {
                            if acc > (limit - d) / 10 {
                                proof {
                                    assert(acc * 10 + d > limit) by (nonlinear_arith)
                                        requires
                                            acc > (limit - d) / 10,
                                            d <= 9,
                                            limit == 9223372036854775807,
                                    ;
                                }
                                over = true;
                            } else {
                                proof {
                                    assert(acc * 10 + d <= limit) by (nonlinear_arith)
                                        requires
                                            acc <= (limit - d) / 10,
                                            d <= 9,
                                            limit == 9223372036854775807,
                                    ;
                                }
                                acc = acc * 10 + d;
                            }
                        } else {
                            proof {
                                let v = digits_value(self.input@, start, self.pos as nat);
                                assert(v * 10 + digit_val(c) > limit as nat)
                                    by (nonlinear_arith)
                                    requires
                                        v > limit as nat,
                                ;
                            }
                        }
                        self.advance();
                    } else {
                        break ;
                    }
                },
                None => {
                    break ;
                },
            }
        }

        if over {
            Err(CompileError::LiteralOverflow)
        } else {
            Ok(acc as i64)
        }
    }

    /// Produces the next token of the input, or the lexical error the text
    /// under the cursor holds, exactly as `spec_next_token` describes. At the
    /// end of input it keeps returning `EOF`.
    pub fn next_token(&mut self) -> (r: Result<Token, CompileError>)
        requires
            old(self).wf(),
        ensures
            final(self).wf(),
            final(self).input@ == old(self).input@,
            r == spec_next_token(old(self).input@, old(self).pos as nat).0,
            final(self).pos as nat == spec_next_token(old(self).input@, old(self).pos as nat).1,
    {
        self.skip_whitespace();

        match self.current() {
            None => Ok(Token::EOF),
            Some(c) => {
                if is_digit(c) {
                    match self.integer() {
                        Ok(n) => Ok(Token::Int(n)),
                        Err(e) => Err(e),
                    }
                } else if c == '+' {
                    self.advance();
                    Ok(Token::Plus)
                } else if c == '-' {
                    self.advance();
                    Ok(Token::Minus)
                } else if c == '*' {
                    self.advance();
                    Ok(Token::Mul)
                } else if c == '/' {
                    self.advance();
                    Ok(Token::Div)
                } else if c == '(' {
                    self.advance();
                    Ok(Token::LParen)
                } else if c == ')' {
                    self.advance();
                    Ok(Token::RParen)
                } else if c == ';' {
                    self.advance();
                    Ok(Token::Semi)
                } else if c == 'p' {
                    if self.input.len() - self.pos >= 5 {
                        let p = self.pos;
                        let m = self.input[p] == 'p' && self.input[p + 1] == 'r'
                            && self.input[p + 2] == 'i' && self.input[p + 3] == 'n'
                            && self.input[p + 4] == 't';
                        proof {
                            reveal_strlit("print");
                            let s = self.input@;
                            let sub = s.subrange(p as int, p as int + 5);
                            if m {
                                assert(sub =~= "print"@);
                            } else {
                                assert(sub.len() == 5);
                                if s[p as int] != 'p' {
                                    assert(sub[0] != "print"@[0]);
                                } else if s[p as int + 1] != 'r' {
                                    assert(sub[1] != "print"@[1]);
                                } else if s[p as int + 2] != 'i' {
                                    assert(sub[2] != "print"@[2]);
                                } else if s[p as int + 3] != 'n' {
                                    assert(sub[3] != "print"@[3]);
                                } else {
                                    assert(s[p as int + 4] != 't');
                                    assert(sub[4] != "print"@[4]);
                                }
                                assert(sub != "print"@);
                            }
                        }
                        if m {
                            self.pos = p + 5;
                            Ok(Token::Print)
                        } else {
                            Err(CompileError::MalformedKeyword)
                        }
                    } else {
                        Err(CompileError::MalformedKeyword)
                    }
                } else {
                    Err(CompileError::InvalidCharacter)
                }
            },
        }
    }
}

} // verus!
