use vstd::prelude::*;

verus! {

/// A lexical unit of an arithmetic expression.
///
/// A number keeps the literal text that was scanned (digits, optionally a
/// decimal point and more digits); turning it into a numeric value is left to
/// the caller.
#[derive(Debug, Clone, PartialEq)]
pub enum Token {
    Number(String),
    Variable(String),
    Parenthesis(char),
    Operation(char),
}

/// The mathematical model of a [`Token`]: text payloads become character
/// sequences.
pub enum TokenView {
    Number(Seq<char>),
    Variable(Seq<char>),
    Parenthesis(char),
    Operation(char),
}

impl View for Token {
    type V = TokenView;

    open spec fn view(&self) -> TokenView {
        match self {
            Token::Number(s) => TokenView::Number(s@),
            Token::Variable(s) => TokenView::Variable(s@),
            Token::Parenthesis(c) => TokenView::Parenthesis(*c),
            Token::Operation(c) => TokenView::Operation(*c),
        }
    }
}

/// One of the four binary operators.
pub open spec fn is_operator(c: char) -> bool {
    c == '+' || c == '-' || c == '*' || c == '/'
}

} // verus!
