use vstd::prelude::*;
use vstd::string::*;

use crate::analyzer::{run, Analyzer};
use crate::token::{is_operator, Token, TokenView};

verus! {

/// An ASCII digit.
pub open spec fn is_digit(c: char) -> bool {
    '0' <= c && c <= '9'
}

/// An ASCII letter or digit.
pub open spec fn is_alphanumeric(c: char) -> bool {
    is_digit(c) || ('a' <= c && c <= 'z') || ('A' <= c && c <= 'Z')
}

/// The end of the run of digits that starts at `i`.
pub open spec fn digits_end(s: Seq<char>, i: int) -> int
    decreases s.len() - i,
{
    if 0 <= i < s.len() && is_digit(s[i]) {
        digits_end(s, i + 1)
    } else {
        i
    }
}

/// The end of the run of ASCII letters and digits that starts at `i`.
pub open spec fn alphanumerics_end(s: Seq<char>, i: int) -> int
    decreases s.len() - i,
{
    if 0 <= i < s.len() && is_alphanumeric(s[i]) {
        alphanumerics_end(s, i + 1)
    } else {
        i
    }
}

/// The end of a number literal whose first digit stands just before `i`:
/// more digits, then optionally a decimal point and more digits.
pub open spec fn number_end(s: Seq<char>, i: int) -> int {
    let j = digits_end(s, i);
    if 0 <= j < s.len() && s[j] == '.' {
        digits_end(s, j + 1)
    } else {
        j
    }
}

/// What scanning at `i` yields: a token or nothing (the character is
/// skipped), and the position just after what was consumed.
pub open spec fn scan(s: Seq<char>, i: int) -> (Option<TokenView>, int) {
    let c = s[i];
    if is_digit(c) {
        let e = number_end(s, i + 1);
        (Some(TokenView::Number(s.subrange(i, e))), e)
    } else if is_alphanumeric(c) {
        let e = alphanumerics_end(s, i + 1);
        (Some(TokenView::Variable(s.subrange(i, e))), e)
    } else if c == '(' || c == ')' {
        (Some(TokenView::Parenthesis(c)), i + 1)
    } else if is_operator(c) {
        (Some(TokenView::Operation(c)), i + 1)
    } else {
        (None, i + 1)
    }
}

/// The tokens that scanning yields from position `i` to the end of `s`.
pub open spec fn tokens_from(s: Seq<char>, i: int) -> Seq<TokenView>
    decreases s.len() - i,
    via tokens_from_decreases
{
    if 0 <= i < s.len() {
        let next = scan(s, i);
        match next.0 {
            Some(t) => seq![t] + tokens_from(s, next.1),
            None => tokens_from(s, next.1),
        }
    } else {
        Seq::empty()
    }
}

/// Where one call of the tokenizer leaves a cursor that stands at `i`: just
/// past the next token, or at `i` itself once `i` is past the last character.
/// Characters that start no token are skipped on the way.
pub open spec fn next_cursor(s: Seq<char>, i: int) -> int
    decreases s.len() - i,
    via next_cursor_decreases
{
    if 0 <= i < s.len() {
        let next = scan(s, i);
        if next.0 is Some {
            next.1
        } else {
            next_cursor(s, next.1)
        }
    } else {
        i
    }
}

/// The tokens of the whole text `s`.
pub open spec fn tokenize(s: Seq<char>) -> Seq<TokenView> {
    tokens_from(s, 0)
}

proof fn lemma_digits_end(s: Seq<char>, i: int)
    requires
        0 <= i <= s.len(),
    ensures
        i <= digits_end(s, i) <= s.len(),
    decreases s.len() - i,
{
    if i < s.len() && is_digit(s[i]) {
        lemma_digits_end(s, i + 1);
    }
}

proof fn lemma_alphanumerics_end(s: Seq<char>, i: int)
    requires
        0 <= i <= s.len(),
    ensures
        i <= alphanumerics_end(s, i) <= s.len(),
    decreases s.len() - i,
{
    if i < s.len() && is_alphanumeric(s[i]) {
        lemma_alphanumerics_end(s, i + 1);
    }
}

/// Scanning consumes at least one character and stays within the text.
proof fn lemma_scan_advances(s: Seq<char>, i: int)
    requires
        0 <= i < s.len(),
    ensures
        i < scan(s, i).1 <= s.len(),
{
    lemma_digits_end(s, i + 1);
    lemma_alphanumerics_end(s, i + 1);
    let j = digits_end(s, i + 1);
    if 0 <= j < s.len() && s[j] == '.' {
        lemma_digits_end(s, j + 1);
    }
}

/// One scanning step: the token found at `i`, if any, followed by the
/// tokens after it.
proof fn lemma_tokens_from_step(s: Seq<char>, i: int)
    requires
        0 <= i < s.len(),
    ensures
        scan(s, i).0 is Some ==> tokens_from(s, i).len() > 0 && tokens_from(s, i)[0] == scan(
            s,
            i,
        ).0->Some_0 && tokens_from(s, i).drop_first() == tokens_from(s, scan(s, i).1),
        scan(s, i).0 is None ==> tokens_from(s, i) == tokens_from(s, scan(s, i).1),
{
    let next = scan(s, i);
    if next.0 is Some {
        assert((seq![next.0->Some_0] + tokens_from(s, next.1)).drop_first() =~= tokens_from(
            s,
            next.1,
        ));
    }
}

#[via_fn]
proof fn next_cursor_decreases(s: Seq<char>, i: int) {
    if 0 <= i < s.len() {
        lemma_scan_advances(s, i);
    }
}

/// A call that finds a token moves the cursor forward and keeps it within the
/// text; one that finds none leaves it at the end of the text, or where it
/// stood if that was already past the end.
proof fn lemma_next_cursor(s: Seq<char>, i: int)
    requires
        0 <= i,
    ensures
        tokens_from(s, i).len() > 0 ==> i < next_cursor(s, i) <= s.len(),
        tokens_from(s, i).len() == 0 ==> next_cursor(s, i) == if i < s.len() {
            s.len() as int
        } else {
            i
        },
    decreases s.len() - i,
{
    if i < s.len() {
        lemma_scan_advances(s, i);
        lemma_tokens_from_step(s, i);
        let next = scan(s, i);
        if next.0 is None {
            lemma_next_cursor(s, next.1);
        }
    }
}

#[via_fn]
proof fn tokens_from_decreases(s: Seq<char>, i: int) {
    if 0 <= i < s.len() {
        lemma_scan_advances(s, i);
    }
}

fn digit(c: char) -> (r: bool)
    ensures
        r == is_digit(c),
{
    '0' <= c && c <= '9'
}

fn alphanumeric(c: char) -> (r: bool)
    ensures
        r == is_alphanumeric(c),
{
    ('0' <= c && c <= '9') || ('a' <= c && c <= 'z') || ('A' <= c && c <= 'Z')
}

/// The end of the run of digits in `s` that starts at `i`.
fn skip_digits(s: &str, len: usize, i: usize) -> (r: usize)
    requires
        len == s@.len(),
        i <= len,
    ensures
        r == digits_end(s@, i as int),
{
    let mut j = i;
    while j < len && digit(s.get_char(j))
        invariant
            len == s@.len(),
            i <= j <= len,
            digits_end(s@, j as int) == digits_end(s@, i as int),
        decreases len - j,
    {
        j = j + 1;
    }
    j
}

/// The end of the run of ASCII letters and digits in `s` that starts at `i`.
fn skip_alphanumerics(s: &str, len: usize, i: usize) -> (r: usize)
    requires
        len == s@.len(),
        i <= len,
    ensures
        r == alphanumerics_end(s@, i as int),
{
    let mut j = i;
    while j < len && alphanumeric(s.get_char(j))
        invariant
            len == s@.len(),
            i <= j <= len,
            alphanumerics_end(s@, j as int) == alphanumerics_end(s@, i as int),
        decreases len - j,
    {
        j = j + 1;
    }
    j
}

/// A tokenizer over one expression, feeding a validator.
///
/// The cursor counts characters of the input; each call of `next_token`
/// moves it past one token and past the unrecognised characters before it.
#[derive(Debug)]
pub struct Parser {
    pub analyzer: Analyzer,
    pub input: String,
    pub position: usize,
}

impl Parser {
    /// The text being scanned.
    pub open spec fn input(&self) -> Seq<char> {
        self.input@
    }

    /// The cursor, in characters.
    pub open spec fn cursor(&self) -> int {
        self.position as int
    }

    /// The validator that accepts the tokens.
    pub open spec fn validator(&self) -> Analyzer {
        self.analyzer
    }

    /// The tokens that the remaining calls of `next_token` will yield.
    pub open spec fn pending(&self) -> Seq<TokenView> {
        tokens_from(self.input(), self.cursor())
    }

    /// A tokenizer at the start of `input`, with a fresh validator.
    pub fn new(input: String) -> (r: Self)
        ensures
            r.input() == input@,
            r.cursor() == 0,
            r.pending() == tokenize(input@),
            r.validator().current() == crate::analyzer::State::Start,
            r.validator().log().len() == 0,
            r.validator().tokens().len() == 0,
            r.validator().diagnostics().len() == 0,
    {
        Self { analyzer: Analyzer::new(), input, position: 0 }
    }

    /// Scans the next token, skipping the characters that start none; `None`
    /// once the input is exhausted.
    pub fn next_token(&mut self) -> (r: Option<Token>)
        ensures
            final(self).input() == old(self).input(),
            final(self).validator() == old(self).validator(),
            final(self).cursor() == next_cursor(old(self).input(), old(self).cursor()),
            r is Some ==> old(self).cursor() < final(self).cursor() <= old(self).input().len(),
            r is None ==> final(self).cursor() >= old(self).input().len(),
            old(self).pending().len() == 0 ==> r is None && final(self).pending().len() == 0,
            old(self).pending().len() > 0 ==> r is Some && r->Some_0@ == old(self).pending()[0]
                && final(self).pending() == old(self).pending().drop_first(),
    {
        let len = self.input.as_str().unicode_len();
        while self.position < len
            invariant
                len == self.input@.len(),
                self.input@ == old(self).input@,
                self.analyzer == old(self).analyzer,
                self.pending() == old(self).pending(),
                old(self).position <= self.position,
                next_cursor(self.input@, self.position as int) == next_cursor(
                    old(self).input@,
                    old(self).position as int,
                ),
            decreases len - self.position,
        {
            let start = self.position;
            let c = self.input.as_str().get_char(start);
            proof {
                lemma_next_cursor(self.input@, start as int);
                lemma_scan_advances(self.input@, start as int);
                lemma_tokens_from_step(self.input@, start as int);
            }
            if digit(c) {
                let mut end = skip_digits(self.input.as_str(), len, start + 1);
                if end < len && self.input.as_str().get_char(end) == '.' {
                    end = skip_digits(self.input.as_str(), len, end + 1);
                }
                let text = String::from_str(self.input.as_str().substring_char(start, end));
                self.position = end;
                return Some(Token::Number(text));
            } else if alphanumeric(c) {
                let end = skip_alphanumerics(self.input.as_str(), len, start + 1);
                let text = String::from_str(self.input.as_str().substring_char(start, end));
                self.position = end;
                return Some(Token::Variable(text));
            } else if c == '(' || c == ')' {
                self.position = start + 1;
                return Some(Token::Parenthesis(c));
            } else if c == '+' || c == '-' || c == '*' || c == '/' {
                self.position = start + 1;
                return Some(Token::Operation(c));
            }
            self.position = start + 1;
        }
        proof {
            lemma_next_cursor(old(self).input@, old(self).position as int);
        }
        None
    }

    /// Feeds every remaining token into the validator, in order. The token
    /// log grows by exactly the scanned tokens, whatever diagnostics they
    /// raise.
    pub fn parse(&mut self)
        ensures
            final(self).input() == old(self).input(),
            final(self).pending().len() == 0,
            final(self).cursor() >= final(self).input().len(),
            final(self).validator().log().len() == old(self).validator().log().len() + old(
                self,
            ).pending().len(),
            final(self).validator().tokens() == old(self).validator().tokens() + old(
                self,
            ).pending(),
            final(self).validator().current() == run(
                old(self).validator().current(),
                old(self).pending(),
            ).0,
            final(self).validator().diagnostics() == old(self).validator().diagnostics() + run(
                old(self).validator().current(),
                old(self).pending(),
            ).1,
    {
        let ghost done: Seq<TokenView> = Seq::empty();
        loop
            invariant
                self.input@ == old(self).input@,
                self.position >= old(self).position,
                done + self.pending() == old(self).pending(),
                self.analyzer.log().len() == old(self).analyzer.log().len() + done.len(),
                self.analyzer.tokens() == old(self).analyzer.tokens() + done,
                self.analyzer.current() == run(old(self).analyzer.current(), done).0,
                self.analyzer.diagnostics() == old(self).analyzer.diagnostics() + run(
                    old(self).analyzer.current(),
                    done,
                ).1,
            decreases self.pending().len(),
        {
            match self.next_token() {
                Some(token) => {
                    proof {
                        assert(done.push(token@) + self.pending() =~= old(self).pending());
                        assert(done.push(token@).drop_last() =~= done);
                    }
                    self.analyzer.analyze(token);
                    proof {
                        done = done.push(token@);
                        assert(self.analyzer.tokens() =~= old(self).analyzer.tokens() + done);
                        assert(self.analyzer.diagnostics() =~= old(self).analyzer.diagnostics()
                            + run(old(self).analyzer.current(), done).1);
                    }
                },
                None => {
                    return ;
                },
            }
        }
    }
}

/// Scanning depends on the text alone: two tokenizers over equal texts, with
/// cursors at the same place, have the same tokens ahead and each next call
/// leaves both cursors at the same place; from the start of the text, the
/// tokens ahead are the tokens of that text.
pub proof fn lemma_rescan_same(a: &Parser, b: &Parser)
    requires
        a.input() == b.input(),
        a.cursor() == b.cursor(),
    ensures
        a.pending() == b.pending(),
        next_cursor(a.input(), a.cursor()) == next_cursor(b.input(), b.cursor()),
        a.cursor() == 0 ==> a.pending() == tokenize(a.input()),
{
}

} // verus!
