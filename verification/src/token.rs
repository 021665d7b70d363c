//! Token trees: what stands inside the brackets of an attribute.
use vstd::prelude::*;

verus! {

/// The kind of bracket that encloses a group of tokens.
#[derive(Debug, Clone, Copy, PartialEq, Eq, Structural)]
pub enum Delimiter {
    /// `( ... )`
    Parenthesis,
    /// `{ ... }`
    Brace,
    /// `[ ... ]`
    Bracket,
    /// A group without visible brackets.
    Invisible,
}

/// One token, or one bracketed group of tokens.
#[derive(Debug, PartialEq, Eq)]
pub enum Token {
    /// A word: `cfg`, `feature`, `path`.
    Ident(String),
    /// A single punctuation character: `=`, `,`.
    Punct(char),
    /// A literal as it is written in the source, quotes and escapes included.
    Literal(String),
    /// A bracketed group with the tokens inside it.
    Group(Delimiter, Vec<Token>),
}

/// The mathematical value of a [`Token`].
pub enum TokenModel {
    Ident(Seq<char>),
    Punct(char),
    Literal(Seq<char>),
    Group(Delimiter, Seq<TokenModel>),
}

/// The value of one token.
pub open spec fn token_model(t: Token) -> TokenModel
    decreases t,
{
    match t {
        Token::Ident(s) => TokenModel::Ident(s@),
        Token::Punct(c) => TokenModel::Punct(c),
        Token::Literal(s) => TokenModel::Literal(s@),
        Token::Group(d, ts) => TokenModel::Group(d, tokens_model(ts@)),
    }
}

/// The values of a run of tokens, in order.
pub open spec fn tokens_model(ts: Seq<Token>) -> Seq<TokenModel>
    decreases ts,
{
    Seq::new(
        ts.len(),
        |i: int|
            if 0 <= i < ts.len() {
                token_model(ts[i])
            } else {
                TokenModel::Punct(' ')
            },
    )
}

impl View for Token {
    type V = TokenModel;

    open spec fn view(&self) -> TokenModel {
        token_model(*self)
    }
}

/// Appending a token appends its value.
pub proof fn lemma_tokens_model_push(ts: Seq<Token>, t: Token)
    ensures
        tokens_model(ts.push(t)) == tokens_model(ts).push(token_model(t)),
{
    assert(tokens_model(ts.push(t)) =~= tokens_model(ts).push(token_model(t)));
}

impl Clone for Token {
    fn clone(&self) -> (r: Token)
        ensures
            r@ == self@,
        decreases self,
    {
        match self {
            Token::Ident(s) => Token::Ident(s.clone()),
            Token::Punct(c) => Token::Punct(*c),
            Token::Literal(s) => Token::Literal(s.clone()),
            Token::Group(d, ts) => Token::Group(*d, clone_tokens(ts)),
        }
    }
}

/// A copy of a run of tokens.
pub fn clone_tokens(ts: &Vec<Token>) -> (r: Vec<Token>)
    ensures
        tokens_model(r@) == tokens_model(ts@),
    decreases ts,
{
    let mut out: Vec<Token> = Vec::new();
    let mut i: usize = 0;
    while i < ts.len()
        invariant
            i <= ts.len(),
            out.len() == i,
            forall|j: int| 0 <= j < i ==> token_model(out@[j]) == token_model(ts@[j]),
        decreases ts.len() - i,
    {
        let t = ts[i].clone();
        out.push(t);
        i = i + 1;
    }
    assert(tokens_model(out@) =~= tokens_model(ts@));
    out
}

/// A copy of part of a run of tokens: those at the positions from `from` up to, not including, `to`.
pub fn clone_token_range(ts: &Vec<Token>, from: usize, to: usize) -> (r: Vec<Token>)
    requires
        from <= to <= ts.len(),
    ensures
        tokens_model(r@) == tokens_model(ts@).subrange(from as int, to as int),
{
    let mut out: Vec<Token> = Vec::new();
    let mut i: usize = from;
    while i < to
        invariant
            from <= i <= to <= ts.len(),
            out.len() == i - from,
            forall|j: int| 0 <= j < i - from ==> token_model(out@[j]) == token_model(ts@[from + j]),
        decreases to - i,
    {
        let t = ts[i].clone();
        out.push(t);
        i = i + 1;
    }
    assert(tokens_model(out@) =~= tokens_model(ts@).subrange(from as int, to as int));
    out
}

} // verus!
