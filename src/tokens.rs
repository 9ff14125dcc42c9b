use vstd::prelude::*;

verus! {

/// A comparison operator.
#[derive(Debug, Clone, Copy, PartialEq, Eq, Structural)]
pub enum Comparison {
    Less,
    Greater,
    LessE,
    GreaterE,
    Equal,
    NotEqual,
}

/// A reserved word of the language.
#[derive(Debug, Clone, Copy, PartialEq, Eq, Structural)]
pub enum Keywords {
    Var,
    Const,
    If,
    Else,
    While,
    Return,
    Function,
    True,
    False,
    Class,
}

/// A lexical token. Text-carrying variants own their lexeme.
#[derive(Debug)]
pub enum TokenTypes {
    Operator(char),
    CompoundOperator(char),
    Compare(Comparison),
    Bang,
    Delim(char),
    Comma,
    Colon,
    Semicolon,
    Identifier(String),
    NumbersInt(i32),
    /// A decimal literal with a fractional part, kept as its source text.
    NumbersFloat(String),
    Strings(String),
    Keywords(Keywords),
    Comment,
    EndOfLine,
    Illegal,
}

/// The mathematical value of a token: text is a sequence of characters.
pub ghost enum TokenView {
    Operator(char),
    CompoundOperator(char),
    Compare(Comparison),
    Bang,
    Delim(char),
    Comma,
    Colon,
    Semicolon,
    Identifier(Seq<char>),
    NumbersInt(i32),
    NumbersFloat(Seq<char>),
    Strings(Seq<char>),
    Keywords(Keywords),
    Comment,
    EndOfLine,
    Illegal,
}

impl View for TokenTypes {
    type V = TokenView;

    open spec fn view(&self) -> TokenView {
        match self {
            TokenTypes::Operator(c) => TokenView::Operator(*c),
            TokenTypes::CompoundOperator(c) => TokenView::CompoundOperator(*c),
            TokenTypes::Compare(k) => TokenView::Compare(*k),
            TokenTypes::Bang => TokenView::Bang,
            TokenTypes::Delim(c) => TokenView::Delim(*c),
            TokenTypes::Comma => TokenView::Comma,
            TokenTypes::Colon => TokenView::Colon,
            TokenTypes::Semicolon => TokenView::Semicolon,
            TokenTypes::Identifier(s) => TokenView::Identifier(s@),
            TokenTypes::NumbersInt(n) => TokenView::NumbersInt(*n),
            TokenTypes::NumbersFloat(s) => TokenView::NumbersFloat(s@),
            TokenTypes::Strings(s) => TokenView::Strings(s@),
            TokenTypes::Keywords(k) => TokenView::Keywords(*k),
            TokenTypes::Comment => TokenView::Comment,
            TokenTypes::EndOfLine => TokenView::EndOfLine,
            TokenTypes::Illegal => TokenView::Illegal,
        }
    }
}

/// The views of a sequence of tokens, element by element.
#[verifier::opaque]
pub open spec fn tokens_view(toks: Seq<TokenTypes>) -> Seq<TokenView> {
    toks.map_values(|t: TokenTypes| t@)
}

pub proof fn lemma_tokens_view(toks: Seq<TokenTypes>)
    ensures
        tokens_view(toks).len() == toks.len(),
        forall|i: int| 0 <= i < toks.len() ==> #[trigger] tokens_view(toks)[i] == toks[i]@,
{
    reveal(tokens_view);
}

pub proof fn lemma_tokens_view_len(toks: Seq<TokenTypes>)
    ensures
        tokens_view(toks).len() == toks.len(),
{
    reveal(tokens_view);
}

impl TokenTypes {
    /// A copy of the token with the same view.
    pub fn copy(&self) -> (r: TokenTypes)
        ensures
            r@ == self@,
    {
        match self {
            TokenTypes::Operator(c) => TokenTypes::Operator(*c),
            TokenTypes::CompoundOperator(c) => TokenTypes::CompoundOperator(*c),
            TokenTypes::Compare(k) => TokenTypes::Compare(*k),
            TokenTypes::Bang => TokenTypes::Bang,
            TokenTypes::Delim(c) => TokenTypes::Delim(*c),
            TokenTypes::Comma => TokenTypes::Comma,
            TokenTypes::Colon => TokenTypes::Colon,
            TokenTypes::Semicolon => TokenTypes::Semicolon,
            TokenTypes::Identifier(s) => TokenTypes::Identifier(s.clone()),
            TokenTypes::NumbersInt(n) => TokenTypes::NumbersInt(*n),
            TokenTypes::NumbersFloat(s) => TokenTypes::NumbersFloat(s.clone()),
            TokenTypes::Strings(s) => TokenTypes::Strings(s.clone()),
            TokenTypes::Keywords(k) => TokenTypes::Keywords(*k),
            TokenTypes::Comment => TokenTypes::Comment,
            TokenTypes::EndOfLine => TokenTypes::EndOfLine,
            TokenTypes::Illegal => TokenTypes::Illegal,
        }
    }
}

impl PartialEq for TokenTypes {
    fn eq(&self, other: &TokenTypes) -> (r: bool)
        ensures
            r == (self@ == other@),
    {
        match (self, other) {
            (TokenTypes::Operator(a), TokenTypes::Operator(b)) => *a == *b,
            (TokenTypes::CompoundOperator(a), TokenTypes::CompoundOperator(b)) => *a == *b,
            (TokenTypes::Compare(a), TokenTypes::Compare(b)) => *a == *b,
            (TokenTypes::Bang, TokenTypes::Bang) => true,
            (TokenTypes::Delim(a), TokenTypes::Delim(b)) => *a == *b,
            (TokenTypes::Comma, TokenTypes::Comma) => true,
            (TokenTypes::Colon, TokenTypes::Colon) => true,
            (TokenTypes::Semicolon, TokenTypes::Semicolon) => true,
            (TokenTypes::Identifier(a), TokenTypes::Identifier(b)) => *a == *b,
            (TokenTypes::NumbersInt(a), TokenTypes::NumbersInt(b)) => *a == *b,
            (TokenTypes::NumbersFloat(a), TokenTypes::NumbersFloat(b)) => *a == *b,
            (TokenTypes::Strings(a), TokenTypes::Strings(b)) => *a == *b,
            (TokenTypes::Keywords(a), TokenTypes::Keywords(b)) => *a == *b,
            (TokenTypes::Comment, TokenTypes::Comment) => true,
            (TokenTypes::EndOfLine, TokenTypes::EndOfLine) => true,
            (TokenTypes::Illegal, TokenTypes::Illegal) => true,
            _ => false,
        }
    }
}

impl vstd::std_specs::cmp::PartialEqSpecImpl for TokenTypes {
    open spec fn obeys_eq_spec() -> bool {
        true
    }

    open spec fn eq_spec(&self, other: &TokenTypes) -> bool {
        self@ == other@
    }
}

} // verus!
