//! Names under which a guard can be set from outside: one fit for a command
//! line, one fit for an environment variable.
use vstd::prelude::*;
use vstd::string::*;
use crate::literal::{literal_value, read_literal, LiteralModel, LiteralValue};
use crate::text::same_text;
use crate::token::{tokens_model, Delimiter, Token, TokenModel};

verus! {

/// `String::push`: the string with one more character at its end.
#[verifier::external_body]
fn push_char(s: &mut String, c: char)
    ensures
        final(s)@ == old(s)@.push(c),
{
    s.push(c)
}

/// The capital of an ASCII small letter, and any other character itself.
pub open spec fn ascii_upper(c: char) -> char {
    if 'a' <= c <= 'z' {
        ((c as u32) - 32) as char
    } else {
        c
    }
}

/// A character as it stands in the name of an environment variable: a space
/// or a hyphen becomes an underscore, an ASCII small letter its capital.
pub open spec fn env_char(c: char) -> char {
    if c == ' ' || c == '-' {
        '_'
    } else {
        ascii_upper(c)
    }
}

/// The capital of an ASCII small letter, and any other character itself.
pub fn to_ascii_upper(c: char) -> (r: char)
    ensures
        r == ascii_upper(c),
{
    if c >= 'a' && c <= 'z' {
        let code = c as u8;
        (code - 32) as char
    } else {
        c
    }
}

/// `text` with each ASCII small letter replaced by its capital.
pub fn uppercased(text: &String) -> (r: String)
    ensures
        r@ == text@.map_values(|c: char| ascii_upper(c)),
{
    let len = text.as_str().unicode_len();
    let mut out = String::new();
    let mut i: usize = 0;
    while i < len
        invariant
            i <= len,
            len == text@.len(),
            out@ == text@.take(i as int).map_values(|c: char| ascii_upper(c)),
        decreases len - i,
    {
        let c = text.as_str().get_char(i);
        push_char(&mut out, to_ascii_upper(c));
        proof {
            assert(text@.take(i + 1).map_values(|c: char| ascii_upper(c)) =~= text@.take(
                i as int,
            ).map_values(|c: char| ascii_upper(c)).push(ascii_upper(c)));
        }
        i = i + 1;
    }
    proof {
        assert(text@.take(len as int) =~= text@);
    }
    out
}

/// `text` as it stands in the name of an environment variable.
pub fn env_text(text: &String) -> (r: String)
    ensures
        r@ == text@.map_values(|c: char| env_char(c)),
{
    let len = text.as_str().unicode_len();
    let mut out = String::new();
    let mut i: usize = 0;
    while i < len
        invariant
            i <= len,
            len == text@.len(),
            out@ == text@.take(i as int).map_values(|c: char| env_char(c)),
        decreases len - i,
    {
        let c = text.as_str().get_char(i);
        let mapped = if c == ' ' || c == '-' {
            '_'
        } else {
            to_ascii_upper(c)
        };
        push_char(&mut out, mapped);
        proof {
            assert(text@.take(i + 1).map_values(|c: char| env_char(c)) =~= text@.take(
                i as int,
            ).map_values(|c: char| env_char(c)).push(env_char(c)));
        }
        i = i + 1;
    }
    proof {
        assert(text@.take(len as int) =~= text@);
    }
    out
}

/// What a literal contributes to a name for the command line: the value of a
/// string literal, a character literal's character, an integer literal as it
/// is written, `true` or `false` for a boolean literal, and nothing for any
/// other.
pub open spec fn cli_contribution(reading: LiteralModel) -> Seq<char> {
    match reading {
        LiteralModel::Str(value) => value,
        LiteralModel::Char(c) => seq![c],
        LiteralModel::Int(written) => written,
        LiteralModel::Bool(b) => if b {
            "true"@
        } else {
            "false"@
        },
        _ => Seq::empty(),
    }
}

/// What a literal contributes to the name of an environment variable: the
/// value of a string literal in capitals, with `_` for each space and hyphen;
/// for every other kind, what it contributes to a name for the command line.
pub open spec fn env_contribution(reading: LiteralModel) -> Seq<char> {
    match reading {
        LiteralModel::Str(value) => value.map_values(|c: char| env_char(c)),
        _ => cli_contribution(reading),
    }
}

/// What the literal written as `text` contributes to a name for the command line.
pub open spec fn cli_literal(text: Seq<char>) -> Seq<char> {
    cli_contribution(literal_value(text))
}

/// What the literal written as `text` contributes to the name of an
/// environment variable.
pub open spec fn env_literal(text: Seq<char>) -> Seq<char> {
    env_contribution(literal_value(text))
}

/// The opening bracket of a group.
pub open spec fn opening(d: Delimiter) -> Seq<char> {
    match d {
        Delimiter::Parenthesis => seq!['('],
        Delimiter::Brace => seq!['{'],
        Delimiter::Bracket => seq!['['],
        Delimiter::Invisible => Seq::empty(),
    }
}

/// The closing bracket of a group.
pub open spec fn closing(d: Delimiter) -> Seq<char> {
    match d {
        Delimiter::Parenthesis => seq![')'],
        Delimiter::Brace => seq!['}'],
        Delimiter::Bracket => seq![']'],
        Delimiter::Invisible => Seq::empty(),
    }
}

/// What one token contributes to a name for the command line.
pub open spec fn cli_piece(t: TokenModel) -> Seq<char>
    decreases t,
{
    match t {
        TokenModel::Group(d, inner) => opening(d) + cli_name(inner) + closing(d),
        TokenModel::Ident(word) => word,
        TokenModel::Literal(text) => cli_literal(text),
        TokenModel::Punct(c) => seq![c],
    }
}

/// The name of a guard for the command line: its tokens written one after the
/// other without spaces, string literals without their quotes.
pub open spec fn cli_name(tokens: Seq<TokenModel>) -> Seq<char>
    decreases tokens,
{
    if tokens.len() == 0 {
        Seq::empty()
    } else {
        cli_name(tokens.drop_last()) + cli_piece(tokens.last())
    }
}

/// What one token contributes to the name of an environment variable.
pub open spec fn env_piece(t: TokenModel) -> Seq<char>
    decreases t,
{
    match t {
        TokenModel::Group(_, inner) => env_name(inner),
        TokenModel::Ident(word) => word.map_values(|c: char| ascii_upper(c)),
        TokenModel::Literal(text) => env_literal(text),
        TokenModel::Punct(_) => Seq::empty(),
    }
}

/// The name of a guard for an environment variable: what its tokens
/// contribute, with `_` between each two contributions that are not empty.
pub open spec fn env_name(tokens: Seq<TokenModel>) -> Seq<char>
    decreases tokens,
{
    if tokens.len() == 0 {
        Seq::empty()
    } else {
        let before = env_name(tokens.drop_last());
        let piece = env_piece(tokens.last());
        if piece.len() == 0 {
            before
        } else if before.len() == 0 {
            piece
        } else {
            before + seq!['_'] + piece
        }
    }
}

/// What a literal contributes to a name for the command line.
pub fn cli_literal_of(reading: LiteralValue) -> (r: String)
    ensures
        r@ == cli_contribution(reading@),
{
    match reading {
        LiteralValue::Str(value) => value,
        LiteralValue::Char(c) => {
            let mut out = String::new();
            push_char(&mut out, c);
            assert(out@ =~= seq![c]);
            out
        },
        LiteralValue::Int(written) => written,
        LiteralValue::Bool(b) => if b {
            String::from_str("true")
        } else {
            String::from_str("false")
        },
        _ => String::new(),
    }
}

/// What a literal contributes to the name of an environment variable.
pub fn env_literal_of(reading: LiteralValue) -> (r: String)
    ensures
        r@ == env_contribution(reading@),
{
    match reading {
        LiteralValue::Str(value) => env_text(&value),
        other => cli_literal_of(other),
    }
}

/// What one token contributes to a name for the command line.
fn cli_piece_of(t: &Token) -> (r: String)
    ensures
        r@ == cli_piece(t@),
    decreases t,
{
    match t {
        Token::Group(d, inner) => {
            let mut out = String::new();
            match d {
                Delimiter::Parenthesis => push_char(&mut out, '('),
                Delimiter::Brace => push_char(&mut out, '{'),
                Delimiter::Bracket => push_char(&mut out, '['),
                Delimiter::Invisible => {},
            }
            assert(out@ =~= opening(*d));
            out.append(get_cli_name(inner).as_str());
            match d {
                Delimiter::Parenthesis => push_char(&mut out, ')'),
                Delimiter::Brace => push_char(&mut out, '}'),
                Delimiter::Bracket => push_char(&mut out, ']'),
                Delimiter::Invisible => {},
            }
            assert(out@ =~= opening(*d) + cli_name(tokens_model(inner@)) + closing(*d));
            out
        },
        Token::Ident(word) => word.clone(),
        Token::Literal(text) => cli_literal_of(read_literal(text)),
        Token::Punct(c) => {
            let mut out = String::new();
            push_char(&mut out, *c);
            assert(out@ =~= seq![*c]);
            out
        },
    }
}

/// The name of a guard for the command line.
pub fn get_cli_name(input: &Vec<Token>) -> (r: String)
    ensures
        r@ == cli_name(tokens_model(input@)),
    decreases input,
{
    let ghost model = tokens_model(input@);
    let mut buf = String::new();
    let mut i: usize = 0;
    proof {
        assert(model.take(0) =~= Seq::<TokenModel>::empty());
    }
    while i < input.len()
        invariant
            i <= input.len(),
            model == tokens_model(input@),
            buf@ == cli_name(model.take(i as int)),
        decreases input.len() - i,
    {
        proof {
            assert(model.take(i + 1).drop_last() =~= model.take(i as int));
            assert(model.take(i + 1).last() == input@[i as int]@);
        }
        let to_insert = cli_piece_of(&input[i]);
        buf.append(to_insert.as_str());
        i = i + 1;
    }
    proof {
        assert(model.take(input.len() as int) =~= model);
    }
    buf
}

/// What one token contributes to the name of an environment variable.
fn env_piece_of(t: &Token) -> (r: String)
    ensures
        r@ == env_piece(t@),
    decreases t,
{
    match t {
        Token::Group(_, inner) => get_env_name(inner),
        Token::Ident(word) => uppercased(word),
        Token::Literal(text) => env_literal_of(read_literal(text)),
        Token::Punct(_) => String::new(),
    }
}

/// The name of a guard for an environment variable.
pub fn get_env_name(input: &Vec<Token>) -> (r: String)
    ensures
        r@ == env_name(tokens_model(input@)),
    decreases input,
{
    let ghost model = tokens_model(input@);
    let mut buf = String::new();
    let mut need_underscore = false;
    let mut i: usize = 0;
    proof {
        assert(model.take(0) =~= Seq::<TokenModel>::empty());
    }
    while i < input.len()
        invariant
            i <= input.len(),
            model == tokens_model(input@),
            buf@ == env_name(model.take(i as int)),
            need_underscore == (buf@.len() > 0),
        decreases input.len() - i,
    {
        proof {
            assert(model.take(i + 1).drop_last() =~= model.take(i as int));
            assert(model.take(i + 1).last() == input@[i as int]@);
        }
        let to_insert = env_piece_of(&input[i]);
        if to_insert.as_str().unicode_len() > 0 {
            if need_underscore {
                push_char(&mut buf, '_');
                proof {
                    assert(buf@ =~= env_name(model.take(i as int)) + seq!['_']);
                }
            }
            buf.append(to_insert.as_str());
            need_underscore = true;
        }
        i = i + 1;
    }
    proof {
        assert(model.take(input.len() as int) =~= model);
    }
    buf
}

/// Whether a guard holds, by what was set from outside. A guard that was
/// named as holding, or any guard where all hold by default, holds unless it
/// was also named as not holding. Otherwise the variable of the environment
/// decides, which says yes by `1`; and where there is none, `default`.
pub fn decide_cfg(
    cfg_true_by_default: bool,
    set: bool,
    unset: bool,
    env_value: Option<String>,
    default: bool,
) -> (r: bool)
    ensures
        r == (if cfg_true_by_default || set {
            !unset
        } else {
            match env_value {
                Some(value) => value@ == "1"@,
                None => default,
            }
        }),
{
    if cfg_true_by_default || set {
        !unset
    } else {
        match env_value {
            Some(value) => same_text(&value, "1"),
            None => default,
        }
    }
}

} // verus!
