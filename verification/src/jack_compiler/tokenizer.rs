//! The tokens of the source language.

use vstd::prelude::*;
use vstd::string::*;

verus! {

/// The kinds of token.
#[derive(Debug, Copy, Clone, PartialEq, Eq, Structural)]
pub enum TokenType {
    Keyword,
    Symbol,
    Identifier,
    IntConst,
    StringConst,
}

/// A token: its kind and its text.
#[derive(Debug)]
pub struct Token {
    token_type: TokenType,
    value: String,
}

/// The mathematical value of a [`Token`].
pub struct TokenView {
    pub token_type: TokenType,
    pub value: Seq<char>,
}

impl View for Token {
    type V = TokenView;

    closed spec fn view(&self) -> TokenView {
        TokenView { token_type: self.token_type, value: self.value@ }
    }
}

/// The name of a kind of token, as it is written in a listing of tokens.
pub open spec fn token_type_name(token_type: TokenType) -> Seq<char> {
    match token_type {
        TokenType::Identifier => "identifier"@,
        TokenType::Keyword => "keyword"@,
        TokenType::IntConst => "integerConstant"@,
        TokenType::Symbol => "symbol"@,
        TokenType::StringConst => "stringConstant"@,
    }
}

impl TokenType {
    /// The name of the kind.
    pub fn to_text(&self) -> (name: &'static str)
        ensures
            name@ == token_type_name(*self),
    {
        match self {
            TokenType::Identifier => "identifier",
            TokenType::Keyword => "keyword",
            TokenType::IntConst => "integerConstant",
            TokenType::Symbol => "symbol",
            TokenType::StringConst => "stringConstant",
        }
    }
}

impl Token {
    /// A token of the given kind with the given text.
    pub fn new(token_type: TokenType, value: String) -> (token: Token)
        ensures
            token@ == (TokenView { token_type, value: value@ }),
    {
        Token { token_type, value }
    }

    /// The text of the token.
    pub fn get_value(&self) -> (value: &String)
        ensures
            value@ == self@.value,
    {
        &self.value
    }

    /// The kind of the token.
    pub fn get_token_type(&self) -> (token_type: &TokenType)
        ensures
            *token_type == self@.token_type,
    {
        &self.token_type
    }
}

} // verus!
