use vstd::prelude::*;
use vstd::string::*;

use crate::token::{is_operator, Token, TokenView};

verus! {

/// A diagnosed illegal adjacency, carrying its human-readable message.
#[derive(Debug, Clone, PartialEq, Eq)]
pub enum AnalyzerError {
    ParseError(String),
}

impl View for AnalyzerError {
    type V = Seq<char>;

    open spec fn view(&self) -> Seq<char> {
        match self {
            AnalyzerError::ParseError(m) => m@,
        }
    }
}

impl AnalyzerError {
    /// The message of this diagnostic.
    pub fn message(&self) -> (r: String)
        ensures
            r@ == self@,
    {
        match self {
            AnalyzerError::ParseError(m) => m.clone(),
        }
    }
}

/// The grammatical category of the most recently accepted token.
///
/// `Error` is transient: the validator records its diagnostic and returns to
/// `Start` within the same step, so `analyze` never leaves it in place. A
/// validator found in it judges the next token as from `Start`.
#[derive(Debug, PartialEq, Eq)]
pub enum State {
    Start,
    Number,
    Variable,
    Parenthesis,
    Operation,
    Error(AnalyzerError),
}

pub open spec fn unexpected_token() -> Seq<char> {
    "Unexpected token"@
}

pub open spec fn parenthesis_at_start() -> Seq<char> {
    "Unexpected parenthesis at the beginning of the expression"@
}

pub open spec fn operation_at_start() -> Seq<char> {
    "Unexpected operation at the beginning of the expression"@
}

pub open spec fn number_after_number() -> Seq<char> {
    "Error: unexpected number in the middle of the expression"@
}

pub open spec fn number_after_variable() -> Seq<char> {
    "Unexpected number after variable"@
}

pub open spec fn variable_after_variable() -> Seq<char> {
    "Unexpected variable after variable"@
}

pub open spec fn open_parenthesis_after_variable() -> Seq<char> {
    "Unexpected open parenthesis after variable"@
}

pub open spec fn operation_after_operation() -> Seq<char> {
    "Unexpected operation after operation"@
}

/// The transition table: the next state, or the message of the diagnostic
/// that the token raises. The transient `Error` state behaves as `Start`.
pub open spec fn transition(s: State, t: TokenView) -> Result<State, Seq<char>> {
    match s {
        State::Number => match t {
            TokenView::Number(_) => Err(number_after_number()),
            TokenView::Variable(_) => Ok(State::Variable),
            TokenView::Parenthesis(_) => Ok(State::Parenthesis),
            TokenView::Operation(c) => if is_operator(c) {
                Ok(State::Operation)
            } else {
                Err(unexpected_token())
            },
        },
        State::Variable => match t {
            TokenView::Number(_) => Err(number_after_variable()),
            TokenView::Variable(_) => Err(variable_after_variable()),
            TokenView::Parenthesis(c) => if c == '(' {
                Err(open_parenthesis_after_variable())
            } else if c == ')' {
                Ok(State::Parenthesis)
            } else {
                Err(unexpected_token())
            },
            TokenView::Operation(c) => if is_operator(c) {
                Ok(State::Operation)
            } else {
                Err(unexpected_token())
            },
        },
        State::Parenthesis => match t {
            TokenView::Number(_) => Ok(State::Number),
            TokenView::Variable(_) => Ok(State::Variable),
            TokenView::Parenthesis(c) => if c == '(' {
                Ok(State::Parenthesis)
            } else {
                Err(unexpected_token())
            },
            TokenView::Operation(_) => Err(unexpected_token()),
        },
        State::Operation => match t {
            TokenView::Number(_) => Ok(State::Number),
            TokenView::Variable(_) => Ok(State::Variable),
            TokenView::Parenthesis(c) => if c == '(' {
                Ok(State::Parenthesis)
            } else {
                Err(unexpected_token())
            },
            TokenView::Operation(c) => if is_operator(c) {
                Err(operation_after_operation())
            } else {
                Err(unexpected_token())
            },
        },
        _ => match t {
            TokenView::Number(_) => Ok(State::Number),
            TokenView::Variable(_) => Ok(State::Variable),
            TokenView::Parenthesis(c) => if c == '(' {
                Ok(State::Parenthesis)
            } else if c == ')' {
                Err(parenthesis_at_start())
            } else {
                Err(unexpected_token())
            },
            TokenView::Operation(_) => Err(operation_at_start()),
        },
    }
}

/// One validator step: the state after the token, and the diagnostics it
/// raises (none, or one). An error resets the state to `Start`.
pub open spec fn step(s: State, t: TokenView) -> (State, Seq<Seq<char>>) {
    match transition(s, t) {
        Ok(n) => (n, Seq::empty()),
        Err(m) => (State::Start, seq![m]),
    }
}

/// The state reached and the diagnostics raised by accepting `ts` in order
/// from state `s`.
pub open spec fn run(s: State, ts: Seq<TokenView>) -> (State, Seq<Seq<char>>)
    decreases ts.len(),
{
    if ts.len() == 0 {
        (s, Seq::empty())
    } else {
        let before = run(s, ts.drop_last());
        let last = step(before.0, ts.last());
        (last.0, before.1 + last.1)
    }
}

/// A number or a variable.
pub open spec fn is_operand(t: TokenView) -> bool {
    t is Number || t is Variable
}

/// Operands alternating with binary operators, starting with an operand and
/// without parentheses.
pub open spec fn alternates(ts: Seq<TokenView>) -> bool {
    forall|i: int|
        0 <= i < ts.len() ==> if i % 2 == 0 {
            is_operand(#[trigger] ts[i])
        } else {
            ts[i] matches TokenView::Operation(c) && is_operator(c)
        }
}

/// Accepting operands that alternate with operators, from `Start`, raises no
/// diagnostic; the validator then rests after an operand when the sequence
/// has odd length, and after an operator when it is non-empty and even.
pub proof fn lemma_alternating_accepted(ts: Seq<TokenView>)
    requires
        alternates(ts),
    ensures
        run(State::Start, ts).1.len() == 0,
        ts.len() % 2 == 1 ==> (run(State::Start, ts).0 is Number || run(State::Start, ts).0 is Variable),
        ts.len() % 2 == 0 && ts.len() > 0 ==> run(State::Start, ts).0 is Operation,
    decreases ts.len(),
{
    if ts.len() > 0 {
        let init = ts.drop_last();
        assert(alternates(init)) by {
            assert forall|i: int| 0 <= i < init.len() implies #[trigger] init[i] == ts[i] by {}
        }
        lemma_alternating_accepted(init);
        let k = ts.len() - 1;
        assert(ts.last() == ts[k]);
    }
}

/// The single-pass validator: it echoes every token into `stack` and records
/// one diagnostic in `errors` for each token that breaks the grammar.
#[derive(Debug)]
pub struct Analyzer {
    pub state: State,
    pub stack: Vec<Token>,
    pub errors: Vec<AnalyzerError>,
}

impl Analyzer {
    /// The current grammatical state.
    pub open spec fn current(&self) -> State {
        self.state
    }

    /// The token log.
    pub open spec fn log(&self) -> Seq<Token> {
        self.stack@
    }

    /// The token log, as models.
    pub open spec fn tokens(&self) -> Seq<TokenView> {
        self.stack@.map_values(|t: Token| t@)
    }

    /// The diagnostic log.
    pub open spec fn error_log(&self) -> Seq<AnalyzerError> {
        self.errors@
    }

    /// The diagnostic log, as messages.
    pub open spec fn diagnostics(&self) -> Seq<Seq<char>> {
        self.errors@.map_values(|e: AnalyzerError| e@)
    }

    /// A validator at `Start`, with empty logs.
    pub fn new() -> (r: Self)
        ensures
            r.current() == State::Start,
            r.log().len() == 0,
            r.tokens().len() == 0,
            r.error_log().len() == 0,
            r.diagnostics().len() == 0,
    {
        Self { state: State::Start, stack: Vec::new(), errors: Vec::new() }
    }

    /// Accepts the next token: logs it, then either advances the state or
    /// logs a diagnostic and returns to `Start`.
    pub fn analyze(&mut self, token: Token)
        ensures
            final(self).log() == old(self).log().push(token),
            final(self).tokens() == old(self).tokens().push(token@),
            final(self).current() == step(old(self).current(), token@).0,
            final(self).diagnostics() == old(self).diagnostics() + step(
                old(self).current(),
                token@,
            ).1,
            final(self).error_log().subrange(0, old(self).error_log().len() as int) == old(self).error_log(),
            final(self).error_log().len() == old(self).error_log().len() + step(
                old(self).current(),
                token@,
            ).1.len(),
            !(final(self).current() is Error),
    {
        let outcome = next_state(&self.state, &token);
        self.stack.push(token);
        match outcome {
            Ok(s) => {
                self.state = s;
            },
            Err(m) => {
                self.errors.push(AnalyzerError::ParseError(m));
                self.state = State::Start;
            },
        }
        proof {
            assert(self.tokens() =~= old(self).tokens().push(token@));
            assert(self.diagnostics() =~= old(self).diagnostics() + step(
                old(self).current(),
                token@,
            ).1);
            assert(self.errors@.subrange(0, old(self).errors@.len() as int) =~= old(self).errors@);
        }
    }
}

/// The executable transition table.
fn next_state(s: &State, t: &Token) -> (r: Result<State, String>)
    ensures
        match transition(*s, t@) {
            Ok(n) => r == Ok::<State, String>(n),
            Err(m) => r is Err && r->Err_0@ == m,
        },
        r is Ok ==> !(r->Ok_0 is Error),
{
    match s {
        State::Number => match t {
            Token::Number(_) => Err(String::from_str(
                "Error: unexpected number in the middle of the expression",
            )),
            Token::Variable(_) => Ok(State::Variable),
            Token::Parenthesis(_) => Ok(State::Parenthesis),
            Token::Operation(c) => if *c == '+' || *c == '-' || *c == '*' || *c == '/' {
                Ok(State::Operation)
            } else {
                Err(String::from_str("Unexpected token"))
            },
        },
        State::Variable => match t {
            Token::Number(_) => Err(String::from_str("Unexpected number after variable")),
            Token::Variable(_) => Err(String::from_str("Unexpected variable after variable")),
            Token::Parenthesis(c) => if *c == '(' {
                Err(String::from_str("Unexpected open parenthesis after variable"))
            } else if *c == ')' {
                Ok(State::Parenthesis)
            } else {
                Err(String::from_str("Unexpected token"))
            },
            Token::Operation(c) => if *c == '+' || *c == '-' || *c == '*' || *c == '/' {
                Ok(State::Operation)
            } else {
                Err(String::from_str("Unexpected token"))
            },
        },
        State::Parenthesis => match t {
            Token::Number(_) => Ok(State::Number),
            Token::Variable(_) => Ok(State::Variable),
            Token::Parenthesis(c) => if *c == '(' {
                Ok(State::Parenthesis)
            } else {
                Err(String::from_str("Unexpected token"))
            },
            Token::Operation(_) => Err(String::from_str("Unexpected token")),
        },
        State::Operation => match t {
            Token::Number(_) => Ok(State::Number),
            Token::Variable(_) => Ok(State::Variable),
            Token::Parenthesis(c) => if *c == '(' {
                Ok(State::Parenthesis)
            } else {
                Err(String::from_str("Unexpected token"))
            },
            Token::Operation(c) => if *c == '+' || *c == '-' || *c == '*' || *c == '/' {
                Err(String::from_str("Unexpected operation after operation"))
            } else {
                Err(String::from_str("Unexpected token"))
            },
        },
        _ => match t {
            Token::Number(_) => Ok(State::Number),
            Token::Variable(_) => Ok(State::Variable),
            Token::Parenthesis(c) => if *c == '(' {
                Ok(State::Parenthesis)
            } else if *c == ')' {
                Err(String::from_str("Unexpected parenthesis at the beginning of the expression"))
            } else {
                Err(String::from_str("Unexpected token"))
            },
            Token::Operation(_) => Err(String::from_str(
                "Unexpected operation at the beginning of the expression",
            )),
        },
    }
}

} // verus!
