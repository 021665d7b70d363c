//! Sorting the attributes of a module declaration into guards, location
//! overrides and everything else.
use vstd::prelude::*;
use crate::error::AttrParseError;
use crate::literal::{read_literal, string_literal_value, string_value};
use crate::text::same_text;
use crate::token::{
    clone_token_range, clone_tokens, lemma_tokens_model_push, tokens_model, Delimiter, Token,
    TokenModel,
};
use crate::tree::{attributes_model, lemma_attributes_model_push, Attribute, AttributeModel};

verus! {

/// An explicit place for a module's file: `#[path = "..."]`, or the same inside
/// a `#[cfg_attr(guard, path = "...")]`, which then holds only where the guard does.
#[derive(Debug, PartialEq, Eq)]
pub struct LocationOverride {
    pub path: String,
    pub guard: Option<Vec<Token>>,
}

/// The mathematical value of a [`LocationOverride`].
pub struct OverrideModel {
    pub path: Seq<char>,
    pub guard: Option<Seq<TokenModel>>,
}

impl View for LocationOverride {
    type V = OverrideModel;

    open spec fn view(&self) -> OverrideModel {
        OverrideModel {
            path: self.path@,
            guard: match self.guard {
                Some(tokens) => Some(tokens_model(tokens@)),
                None => None,
            },
        }
    }
}

/// The values of a run of overrides, in order.
pub open spec fn overrides_model(overrides: Seq<LocationOverride>) -> Seq<OverrideModel> {
    overrides.map_values(|o: LocationOverride| o@)
}

/// The values of several runs of tokens, in order.
pub open spec fn token_runs_model(runs: Seq<Vec<Token>>) -> Seq<Seq<TokenModel>> {
    runs.map_values(|run: Vec<Token>| tokens_model(run@))
}

/// The place that the tokens after `path` name, given what their literal
/// denotes as a string (`None`: it is no string literal). The tokens must be
/// `=` and one string literal. With no token, or a first token other than
/// `=`, the equal sign is missed; with `=` and anything but one string
/// literal behind it, the string literal is.
pub open spec fn location_given(payload: Seq<TokenModel>, value: Option<Seq<char>>) -> Result<
    Seq<char>,
    AttrParseError,
> {
    if payload.len() == 0 || payload[0] != TokenModel::Punct('=') {
        Err(AttrParseError::FirstTokenIsNotEqualSign)
    } else if payload.len() != 2 || !(payload[1] is Literal) {
        Err(AttrParseError::SecondTokenIsNotStringLiteral)
    } else {
        match value {
            Some(v) => Ok(v),
            None => Err(AttrParseError::SecondTokenIsNotStringLiteral),
        }
    }
}

/// The place that the tokens after `path` name.
pub open spec fn location_of(payload: Seq<TokenModel>) -> Result<Seq<char>, AttrParseError> {
    location_given(
        payload,
        if payload.len() == 2 && payload[1] is Literal {
            string_literal_value(payload[1]->Literal_0)
        } else {
            None
        },
    )
}

/// The tokens inside the round brackets, where `payload` is exactly one group
/// in round brackets.
pub open spec fn round_group(payload: Seq<TokenModel>) -> Option<Seq<TokenModel>> {
    if payload.len() != 1 {
        None
    } else {
        match payload[0] {
            TokenModel::Group(Delimiter::Parenthesis, inner) => Some(inner),
            _ => None,
        }
    }
}

/// `tokens` cut at each comma of its own level. There is always at least one
/// piece; a piece may be empty.
pub open spec fn split_commas(tokens: Seq<TokenModel>) -> Seq<Seq<TokenModel>>
    decreases tokens.len(),
{
    if tokens.len() == 0 {
        seq![Seq::empty()]
    } else {
        let before = split_commas(tokens.drop_last());
        if tokens.last() == TokenModel::Punct(',') {
            before.push(Seq::empty())
        } else {
            before.drop_last().push(before.last().push(tokens.last()))
        }
    }
}

/// The comma-separated clauses of `tokens`. A comma at the very end closes the
/// last clause and opens no new one.
pub open spec fn clauses(tokens: Seq<TokenModel>) -> Seq<Seq<TokenModel>> {
    let pieces = split_commas(tokens);
    if pieces.last().len() == 0 {
        pieces.drop_last()
    } else {
        pieces
    }
}

/// What one attribute means for the loading of the module it stands on.
pub enum Role {
    /// `#[cfg(guard)]`: the module is there only where the guard holds.
    Guard(Seq<TokenModel>),
    /// `#[path = ".."]` or `#[cfg_attr(guard, path = "..")]`.
    Override(OverrideModel),
    /// Anything else: it stays on the module as it is.
    Other,
}

/// Whether one of `parts` holds no token.
pub open spec fn has_empty(parts: Seq<Seq<TokenModel>>) -> bool {
    exists|i: int| 0 <= i < parts.len() && (#[trigger] parts[i]).len() == 0
}

/// Whether a clause speaks of `path` itself: it begins with the word `path`,
/// and that word is not the first segment of a longer path such as `path::x`.
pub open spec fn names_path(clause: Seq<TokenModel>) -> bool {
    &&& clause.len() > 0
    &&& clause[0] == TokenModel::Ident("path"@)
    &&& (clause.len() == 1 || clause[1] != TokenModel::Punct(':'))
}

/// The role of a `#[cfg_attr ..]` attribute with the given payload. It must
/// hold one group in round brackets with exactly two clauses, none of them
/// empty. Where the second clause does not speak of `path`, the attribute
/// concerns something else.
pub open spec fn conditional_role(payload: Seq<TokenModel>) -> Result<Role, AttrParseError> {
    match round_group(payload) {
        None => Err(AttrParseError::CfgAttrNotRoundGroup),
        Some(inner) => {
            let parts = clauses(inner);
            if has_empty(parts) {
                Err(AttrParseError::MalformedCfg)
            } else if parts.len() != 2 {
                Err(AttrParseError::CfgAttrNotTwoParams)
            } else if !names_path(parts[1]) {
                Ok(Role::Other)
            } else {
                match location_of(parts[1].skip(1)) {
                    Ok(path) => Ok(Role::Override(OverrideModel { path, guard: Some(parts[0]) })),
                    Err(e) => Err(e),
                }
            }
        },
    }
}

/// The role of one attribute.
pub open spec fn attribute_role(a: AttributeModel) -> Result<Role, AttrParseError> {
    if a.key == "cfg"@ {
        match round_group(a.payload) {
            Some(inner) => Ok(Role::Guard(inner)),
            None => Err(AttrParseError::MalformedCfg),
        }
    } else if a.key == "path"@ {
        match location_of(a.payload) {
            Ok(path) => Ok(Role::Override(OverrideModel { path, guard: None })),
            Err(e) => Err(e),
        }
    } else if a.key == "cfg_attr"@ {
        conditional_role(a.payload)
    } else {
        Ok(Role::Other)
    }
}

/// The attributes of a declaration, sorted: its guards, its location overrides
/// and the rest, each in the order written. Sorting stops at the first
/// malformed attribute, which `error` then tells.
pub struct Classified {
    pub guards: Seq<Seq<TokenModel>>,
    pub overrides: Seq<OverrideModel>,
    pub rest: Seq<AttributeModel>,
    pub error: Option<AttrParseError>,
}

/// The attributes `attrs` sorted by their roles.
pub open spec fn classify(attrs: Seq<AttributeModel>) -> Classified
    decreases attrs.len(),
{
    if attrs.len() == 0 {
        Classified { guards: Seq::empty(), overrides: Seq::empty(), rest: Seq::empty(), error: None }
    } else {
        let before = classify(attrs.drop_last());
        if before.error is Some {
            before
        } else {
            match attribute_role(attrs.last()) {
                Err(e) => Classified { error: Some(e), ..before },
                Ok(Role::Guard(g)) => Classified { guards: before.guards.push(g), ..before },
                Ok(Role::Override(o)) => Classified { overrides: before.overrides.push(o), ..before },
                Ok(Role::Other) => Classified { rest: before.rest.push(attrs.last()), ..before },
            }
        }
    }
}

/// Once an attribute is malformed, those after it change nothing.
pub proof fn lemma_classify_stops(attrs: Seq<AttributeModel>, n: int)
    requires
        0 <= n <= attrs.len(),
        classify(attrs.take(n)).error is Some,
    ensures
        classify(attrs) == classify(attrs.take(n)),
    decreases attrs.len() - n,
{
    if n == attrs.len() {
        assert(attrs.take(n) =~= attrs);
    } else {
        let init = attrs.drop_last();
        assert(init.take(n) =~= attrs.take(n));
        lemma_classify_stops(init, n);
    }
}

/// The place that the tokens after `path` name, where `value` is what their
/// literal denotes as a string.
pub fn location_with(payload: &Vec<Token>, value: Option<String>) -> (r: Result<
    String,
    AttrParseError,
>)
    ensures
        match r {
            Ok(path) => location_given(
                tokens_model(payload@),
                match value {
                    Some(v) => Some(v@),
                    None => None,
                },
            ) == Ok::<Seq<char>, AttrParseError>(path@),
            Err(e) => location_given(
                tokens_model(payload@),
                match value {
                    Some(v) => Some(v@),
                    None => None,
                },
            ) == Err::<Seq<char>, AttrParseError>(e),
        },
{
    let first_is_equal_sign = payload.len() > 0 && match &payload[0] {
        Token::Punct(c) => *c == '=',
        _ => false,
    };
    if !first_is_equal_sign {
        return Err(AttrParseError::FirstTokenIsNotEqualSign);
    }
    if payload.len() != 2 {
        return Err(AttrParseError::SecondTokenIsNotStringLiteral);
    }
    match &payload[1] {
        Token::Literal(_) => match value {
            Some(v) => Ok(v),
            None => Err(AttrParseError::SecondTokenIsNotStringLiteral),
        },
        _ => Err(AttrParseError::SecondTokenIsNotStringLiteral),
    }
}

/// The place that the tokens after `path` name: they must be `=` and one
/// string literal, whose value is the place.
pub fn extract_path_from_attr(payload: &Vec<Token>) -> (r: Result<String, AttrParseError>)
    ensures
        match r {
            Ok(path) => location_of(tokens_model(payload@)) == Ok::<Seq<char>, AttrParseError>(
                path@,
            ),
            Err(e) => location_of(tokens_model(payload@)) == Err::<Seq<char>, AttrParseError>(e),
        },
{
    let value = if payload.len() == 2 {
        match &payload[1] {
            Token::Literal(text) => string_value(read_literal(text)),
            _ => None,
        }
    } else {
        None
    };
    location_with(payload, value)
}

/// The tokens inside the round brackets, where `payload` is exactly one group
/// in round brackets.
pub fn round_group_of(payload: &Vec<Token>) -> (r: Option<&Vec<Token>>)
    ensures
        match r {
            Some(inner) => round_group(tokens_model(payload@)) == Some(tokens_model(inner@)),
            None => round_group(tokens_model(payload@)) is None,
        },
{
    if payload.len() != 1 {
        return None;
    }
    match &payload[0] {
        Token::Group(Delimiter::Parenthesis, inner) => Some(inner),
        _ => None,
    }
}

/// The comma-separated clauses of `tokens`.
pub fn split_clauses(tokens: &Vec<Token>) -> (r: Vec<Vec<Token>>)
    ensures
        token_runs_model(r@) == clauses(tokens_model(tokens@)),
{
    let ghost model = tokens_model(tokens@);
    let mut pieces: Vec<Vec<Token>> = Vec::new();
    let mut current: Vec<Token> = Vec::new();
    let mut i: usize = 0;
    proof {
        assert(model.take(0) =~= Seq::<TokenModel>::empty());
        assert(tokens_model(current@) =~= Seq::<TokenModel>::empty());
        assert(token_runs_model(pieces@).push(tokens_model(current@)) =~= seq![
            Seq::<TokenModel>::empty(),
        ]);
    }
    while i < tokens.len()
        invariant
            i <= tokens.len(),
            model == tokens_model(tokens@),
            split_commas(model.take(i as int)) == token_runs_model(pieces@).push(
                tokens_model(current@),
            ),
        decreases tokens.len() - i,
    {
        let ghost before = split_commas(model.take(i as int));
        proof {
            assert(model.take(i + 1).drop_last() =~= model.take(i as int));
            assert(model.take(i + 1).last() == tokens@[i as int]@);
        }
        let is_comma = match &tokens[i] {
            Token::Punct(c) => *c == ',',
            _ => false,
        };
        if is_comma {
            let ghost closed = current;
            pieces.push(current);
            current = Vec::new();
            proof {
                assert(token_runs_model(pieces@) =~= before);
                assert(tokens_model(current@) =~= Seq::<TokenModel>::empty());
            }
        } else {
            let ghost grown = current@;
            let token = tokens[i].clone();
            current.push(token);
            proof {
                lemma_tokens_model_push(grown, token);
                assert(before.drop_last() =~= token_runs_model(pieces@));
            }
        }
        i = i + 1;
    }
    proof {
        assert(model.take(tokens.len() as int) =~= model);
    }
    if current.len() == 0 {
        proof {
            assert(split_commas(model).drop_last() =~= token_runs_model(pieces@));
        }
        pieces
    } else {
        let ghost open = pieces@;
        pieces.push(current);
        proof {
            assert(token_runs_model(pieces@) =~= token_runs_model(open).push(
                tokens_model(current@),
            ));
        }
        pieces
    }
}

/// Whether one of `parts` holds no token.
pub fn any_empty(parts: &Vec<Vec<Token>>) -> (r: bool)
    ensures
        r == has_empty(token_runs_model(parts@)),
{
    let ghost model = token_runs_model(parts@);
    let mut i: usize = 0;
    while i < parts.len()
        invariant
            i <= parts.len(),
            model == token_runs_model(parts@),
            forall|j: int| 0 <= j < i ==> (#[trigger] model[j]).len() > 0,
        decreases parts.len() - i,
    {
        assert(model[i as int] == tokens_model(parts@[i as int]@));
        if parts[i].len() == 0 {
            return true;
        }
        i = i + 1;
    }
    false
}

/// Whether a clause speaks of `path` itself.
pub fn speaks_of_path(clause: &Vec<Token>) -> (r: bool)
    ensures
        r == names_path(tokens_model(clause@)),
{
    if clause.len() == 0 {
        return false;
    }
    let begins = match &clause[0] {
        Token::Ident(word) => same_text(word, "path"),
        _ => false,
    };
    if !begins {
        return false;
    }
    if clause.len() == 1 {
        return true;
    }
    match &clause[1] {
        Token::Punct(c) => *c != ':',
        _ => true,
    }
}

/// The location override that a `#[cfg_attr ..]` attribute with the given
/// payload states; `None` where its second clause does not begin with `path`,
/// so that the attribute concerns something else.
pub fn conditional_override(payload: &Vec<Token>) -> (r: Result<
    Option<LocationOverride>,
    AttrParseError,
>)
    ensures
        match r {
            Ok(Some(o)) => conditional_role(tokens_model(payload@)) == Ok::<Role, AttrParseError>(
                Role::Override(o@),
            ),
            Ok(None) => conditional_role(tokens_model(payload@)) == Ok::<Role, AttrParseError>(
                Role::Other,
            ),
            Err(e) => conditional_role(tokens_model(payload@)) == Err::<Role, AttrParseError>(e),
        },
{
    let inner = match round_group_of(payload) {
        Some(inner) => inner,
        None => {
            return Err(AttrParseError::CfgAttrNotRoundGroup);
        },
    };
    let parts = split_clauses(inner);
    let ghost model = clauses(tokens_model(inner@));
    if any_empty(&parts) {
        return Err(AttrParseError::MalformedCfg);
    }
    if parts.len() != 2 {
        return Err(AttrParseError::CfgAttrNotTwoParams);
    }
    proof {
        assert(model[0] == tokens_model(parts@[0]@));
        assert(model[1] == tokens_model(parts@[1]@));
    }
    let second = &parts[1];
    if !speaks_of_path(second) {
        return Ok(None);
    }
    let rest = clone_token_range(second, 1, second.len());
    let path = extract_path_from_attr(&rest)?;
    Ok(Some(LocationOverride { path, guard: Some(clone_tokens(&parts[0])) }))
}

/// Sorts the attributes of a module declaration. The conditions of its
/// `#[cfg(..)]` attributes are appended to `cfg_attrs`, its location overrides
/// to `path_attrs`, and copies of all other attributes to `attrs`, each in the
/// order written. The first malformed attribute ends the sorting and is
/// reported; what came before it has been appended by then.
pub fn read_and_process_attributes(
    input_attrs: &Vec<Attribute>,
    path_attrs: &mut Vec<LocationOverride>,
    attrs: &mut Vec<Attribute>,
    cfg_attrs: &mut Vec<Vec<Token>>,
) -> (r: Result<(), AttrParseError>)
    ensures
        overrides_model(final(path_attrs)@) == overrides_model(old(path_attrs)@) + classify(
            attributes_model(input_attrs@),
        ).overrides,
        attributes_model(final(attrs)@) == attributes_model(old(attrs)@) + classify(
            attributes_model(input_attrs@),
        ).rest,
        token_runs_model(final(cfg_attrs)@) == token_runs_model(old(cfg_attrs)@) + classify(
            attributes_model(input_attrs@),
        ).guards,
        match r {
            Ok(_) => classify(attributes_model(input_attrs@)).error is None,
            Err(e) => classify(attributes_model(input_attrs@)).error == Some(e),
        },
{
    let ghost model = attributes_model(input_attrs@);
    let mut i: usize = 0;
    proof {
        assert(model.take(0) =~= Seq::<AttributeModel>::empty());
        assert(overrides_model(path_attrs@) + Seq::<OverrideModel>::empty() =~= overrides_model(
            path_attrs@,
        ));
        assert(attributes_model(attrs@) + Seq::<AttributeModel>::empty() =~= attributes_model(
            attrs@,
        ));
        assert(token_runs_model(cfg_attrs@) + Seq::<Seq<TokenModel>>::empty()
            =~= token_runs_model(cfg_attrs@));
    }
    while i < input_attrs.len()
        invariant
            i <= input_attrs.len(),
            model == attributes_model(input_attrs@),
            classify(model.take(i as int)).error is None,
            overrides_model(path_attrs@) == overrides_model(old(path_attrs)@) + classify(
                model.take(i as int),
            ).overrides,
            attributes_model(attrs@) == attributes_model(old(attrs)@) + classify(
                model.take(i as int),
            ).rest,
            token_runs_model(cfg_attrs@) == token_runs_model(old(cfg_attrs)@) + classify(
                model.take(i as int),
            ).guards,
        decreases input_attrs.len() - i,
    {
        let attr = &input_attrs[i];
        let ghost before = classify(model.take(i as int));
        let ghost paths_before = path_attrs@;
        let ghost attrs_before = attrs@;
        let ghost cfgs_before = cfg_attrs@;
        proof {
            assert(model.take(i + 1).drop_last() =~= model.take(i as int));
            assert(model.take(i + 1).last() == attr@);
        }
        let mut failure: Option<AttrParseError> = None;
        if same_text(&attr.key, "cfg") {
            match round_group_of(&attr.payload) {
                Some(inner) => {
                    let guard = clone_tokens(inner);
                    cfg_attrs.push(guard);
                    proof {
                        assert(token_runs_model(cfg_attrs@) =~= token_runs_model(cfgs_before).push(
                            tokens_model(guard@),
                        ));
                        assert(token_runs_model(cfg_attrs@) =~= token_runs_model(old(cfg_attrs)@)
                            + before.guards.push(tokens_model(guard@)));
                    }
                },
                None => {
                    failure = Some(AttrParseError::MalformedCfg);
                },
            }
        } else if same_text(&attr.key, "path") {
            match extract_path_from_attr(&attr.payload) {
                Ok(path) => {
                    let found = LocationOverride { path, guard: None };
                    path_attrs.push(found);
                    proof {
                        assert(overrides_model(path_attrs@) =~= overrides_model(paths_before).push(
                            found@,
                        ));
                        assert(overrides_model(path_attrs@) =~= overrides_model(old(path_attrs)@)
                            + before.overrides.push(found@));
                    }
                },
                Err(e) => {
                    failure = Some(e);
                },
            }
        } else if same_text(&attr.key, "cfg_attr") {
            match conditional_override(&attr.payload) {
                Ok(Some(found)) => {
                    path_attrs.push(found);
                    proof {
                        assert(overrides_model(path_attrs@) =~= overrides_model(paths_before).push(
                            found@,
                        ));
                        assert(overrides_model(path_attrs@) =~= overrides_model(old(path_attrs)@)
                            + before.overrides.push(found@));
                    }
                },
                Ok(None) => {
                    let kept = attr.clone();
                    attrs.push(kept);
                    proof {
                        lemma_attributes_model_push(attrs_before, kept);
                        assert(attributes_model(attrs@) =~= attributes_model(old(attrs)@)
                            + before.rest.push(attr@));
                    }
                },
                Err(e) => {
                    failure = Some(e);
                },
            }
        } else {
            let kept = attr.clone();
            attrs.push(kept);
            proof {
                lemma_attributes_model_push(attrs_before, kept);
                assert(attributes_model(attrs@) =~= attributes_model(old(attrs)@)
                    + before.rest.push(attr@));
            }
        }
        if let Some(e) = failure {
            proof {
                lemma_classify_stops(model, i + 1);
            }
            return Err(e);
        }
        i = i + 1;
    }
    proof {
        assert(model.take(input_attrs.len() as int) =~= model);
    }
    Ok(())
}

} // verus!
