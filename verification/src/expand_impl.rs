//! The expansion itself: it walks the items of a tree, asks the resolver for
//! the files of the modules declared without a body, and builds the tree in
//! which they have one.
use vstd::prelude::*;
use vstd::string::*;
use crate::attrs::{
    classify, overrides_model, read_and_process_attributes, token_runs_model, LocationOverride,
};
use crate::error::{Error, ErrorCase, ErrorModel, UserError};
use crate::paths::{holding_dirs, index_file, join, locate, parent};
use crate::resolver::Resolver;
use crate::rules::{
    admission, cfg_attribute, comma_separated, conventional_choice, conventional_places, copies,
    copy_guard, expansion, failure, fetch_override, plan, replay_guards, replay_item, replay_items,
    replay_overrides, residual_guard, spliced, step_override, Admission, Candidate, Context,
    Dialogue, FileExchange, GuardExchange, Outcome, OverrideExchange, Plan, Search, Verdict,
};
use crate::stack::{
    clone_stack, empty_stack, push_back, stack_items, stack_len, vector_contents,
};
use crate::text::{clone_strings, followed_by, strings_model};
use crate::token::{clone_tokens, lemma_tokens_model_push, tokens_model, Delimiter, Token, TokenModel};
use crate::tree::{
    attributes_model, clone_attributes, items_model, lemma_attributes_model_push,
    lemma_items_model_push, AttrStyle, Attribute, Item, ItemModel, Module, Tree, TreeModel,
};

verus! {

/// A place where the file of a module was looked for.
#[derive(Debug, PartialEq, Eq)]
pub struct ExpandedModuleInfo {
    /// The file found there, if there was one.
    pub result: Option<Tree>,
    /// Where the `#[path]`s of the module's children are looked for.
    pub dirs_attr: im_rc::Vector<String>,
    /// Where the module's children are looked for by name.
    pub dirs_nat: im_rc::Vector<String>,
    /// The guard under which this place applies.
    pub cfg: Option<Vec<Token>>,
}

/// The value of a file that may be absent.
pub open spec fn found_model(tree: Option<Tree>) -> Option<TreeModel> {
    match tree {
        Some(t) => Some(t@),
        None => None,
    }
}

/// The value of a guard that may be absent.
pub open spec fn guard_model(guard: Option<Vec<Token>>) -> Option<Seq<TokenModel>> {
    match guard {
        Some(tokens) => Some(tokens_model(tokens@)),
        None => None,
    }
}

/// The value of what a request for a file came back with.
pub open spec fn file_answer(answer: Result<Option<Tree>, Error>) -> Result<
    Option<TreeModel>,
    ErrorModel,
> {
    match answer {
        Ok(found) => Ok(found_model(found)),
        Err(e) => Err(e@),
    }
}

/// The value of what the evaluation of a guard came back with.
pub open spec fn guard_answer(answer: Result<bool, UserError>) -> Result<bool, Seq<char>> {
    match answer {
        Ok(holds) => Ok(holds),
        Err(message) => Err(message@),
    }
}

impl View for ExpandedModuleInfo {
    type V = Candidate;

    open spec fn view(&self) -> Candidate {
        Candidate {
            found: found_model(self.result),
            natural: vector_contents(self.dirs_nat),
            explicit: vector_contents(self.dirs_attr),
            guard: guard_model(self.cfg),
        }
    }
}

/// The values of a run of places, in order.
pub open spec fn candidates_model(places: Seq<ExpandedModuleInfo>) -> Seq<Candidate> {
    places.map_values(|c: ExpandedModuleInfo| c@)
}

/// What is known while the location overrides of a declaration are gone through.
#[derive(Debug, PartialEq, Eq)]
pub struct SearchState {
    /// The places tried so far.
    pub expansion_candidates: Vec<ExpandedModuleInfo>,
    /// The guards of the overrides that applied.
    pub accumulated_cfgs: Vec<Vec<Token>>,
    /// Whether `name.rs` and `name/mod.rs` are still to be tried.
    pub need_to_try_natural_file_locations: bool,
}

impl View for SearchState {
    type V = Search;

    open spec fn view(&self) -> Search {
        Search {
            candidates: candidates_model(self.expansion_candidates@),
            accepted: token_runs_model(self.accumulated_cfgs@),
            conventional: self.need_to_try_natural_file_locations,
        }
    }
}

/// The tokens of `guards` with a comma between each two.
pub fn separate_by_commas(guards: &Vec<Vec<Token>>) -> (r: Vec<Token>)
    ensures
        tokens_model(r@) == comma_separated(token_runs_model(guards@)),
{
    let ghost model = token_runs_model(guards@);
    let mut out: Vec<Token> = Vec::new();
    let mut i: usize = 0;
    proof {
        assert(model.take(0) =~= Seq::<Seq<TokenModel>>::empty());
        assert(tokens_model(out@) =~= Seq::<TokenModel>::empty());
    }
    while i < guards.len()
        invariant
            i <= guards.len(),
            model == token_runs_model(guards@),
            tokens_model(out@) == comma_separated(model.take(i as int)),
        decreases guards.len() - i,
    {
        proof {
            assert(model.take(i + 1).drop_last() =~= model.take(i as int));
            assert(model.take(i + 1).last() == tokens_model(guards@[i as int]@));
        }
        if i > 0 {
            let ghost before = out@;
            out.push(Token::Punct(','));
            proof {
                lemma_tokens_model_push(before, Token::Punct(','));
            }
        }
        let ghost before = out@;
        let mut guard = clone_tokens(&guards[i]);
        let ghost added = guard@;
        out.append(&mut guard);
        proof {
            assert(tokens_model(before + added) =~= tokens_model(before) + tokens_model(added));
            if i == 0 {
                assert(tokens_model(before) + tokens_model(added) =~= tokens_model(added));
            }
        }
        i = i + 1;
    }
    proof {
        assert(model.take(guards.len() as int) =~= model);
    }
    out
}

/// A word as a token.
fn word(text: &str) -> (r: Token)
    ensures
        r@ == TokenModel::Ident(text@),
{
    Token::Ident(String::from_str(text))
}

/// The guard that holds where none of `guards` does: `not(any(g1, g2, ..))`.
pub fn residual_cfg(guards: &Vec<Vec<Token>>) -> (r: Vec<Token>)
    ensures
        tokens_model(r@) == residual_guard(token_runs_model(guards@)),
{
    let listed = separate_by_commas(guards);
    let mut any: Vec<Token> = Vec::new();
    any.push(word("any"));
    any.push(Token::Group(Delimiter::Parenthesis, listed));
    let mut not: Vec<Token> = Vec::new();
    not.push(word("not"));
    not.push(Token::Group(Delimiter::Parenthesis, any));
    proof {
        assert(tokens_model(any@) =~= seq![
            TokenModel::Ident("any"@),
            TokenModel::Group(Delimiter::Parenthesis, tokens_model(listed@)),
        ]);
        assert(tokens_model(not@) =~= residual_guard(token_runs_model(guards@)));
    }
    not
}

/// The attribute `#[cfg(guard)]`.
pub fn cfg_attribute_of(guard: &Vec<Token>) -> (r: Attribute)
    ensures
        r@ == cfg_attribute(tokens_model(guard@)),
{
    let mut payload: Vec<Token> = Vec::new();
    payload.push(Token::Group(Delimiter::Parenthesis, clone_tokens(guard)));
    proof {
        assert(tokens_model(payload@) =~= seq![
            TokenModel::Group(Delimiter::Parenthesis, tokens_model(guard@)),
        ]);
    }
    Attribute { style: AttrStyle::Outer, key: String::from_str("cfg"), payload }
}

/// Has the resolver evaluate `guards` in order, up to the first that does not
/// hold or that fails. The result tells whether all of them hold.
fn evaluate_guards<R: Resolver>(guards: &Vec<Vec<Token>>, resolver: &mut R) -> (r: (
    Result<bool, UserError>,
    Ghost<Seq<GuardExchange>>,
))
    requires
        old(resolver).admits_every_request(),
    ensures
        final(resolver).admits_every_request(),
        replay_guards(token_runs_model(guards@), r.1@) == (match r.0 {
            Ok(true) => Verdict::Pass,
            Ok(false) => Verdict::Elide,
            Err(message) => Verdict::Fail(message@),
        }),
        r.0 matches Ok(true) ==> r.1@.len() == guards.len(),
{
    let ghost model = token_runs_model(guards@);
    let mut said: Ghost<Seq<GuardExchange>> = Ghost(Seq::empty());
    let mut i: usize = 0;
    while i < guards.len()
        invariant
            resolver.admits_every_request(),
            i <= guards.len(),
            model == token_runs_model(guards@),
            said@.len() == i,
            replay_guards(model, said@) == Verdict::Pass,
        decreases guards.len() - i,
    {
        let cfg = clone_tokens(&guards[i]);
        let ghost asked = tokens_model(cfg@);
        let answer = resolver.check_cfg(cfg);
        proof {
            let before = said@;
            said@ = before.push(GuardExchange { asked, answer: guard_answer(answer) });
            assert(said@.drop_last() =~= before);
        }
        match answer {
            Ok(true) => {},
            Ok(false) => {
                return (Ok(false), said);
            },
            Err(message) => {
                return (Err(message), said);
            },
        }
        i = i + 1;
    }
    (Ok(true), said)
}

/// The failure of one module for the given cause.
fn fail(module: &Vec<String>, inner: ErrorCase) -> (r: Error)
    ensures
        r@ == failure(strings_model(module@), inner@),
{
    Error { module: clone_strings(module), inner }
}

/// Asks the resolver for the file of the override `o`, and notes the place as
/// tried.
fn fetch<R: Resolver>(
    o: &LocationOverride,
    module: &Vec<String>,
    dirs_attr: &Vec<String>,
    multi: bool,
    st: &mut SearchState,
    resolver: &mut R,
) -> (r: (Result<(), Error>, Ghost<Option<FileExchange>>))
    requires
        old(resolver).admits_every_request(),
    ensures
        final(resolver).admits_every_request(),
        fetch_override(o@, strings_model(module@), strings_model(dirs_attr@), multi, old(st)@, r.1@)
            == (match r.0 {
            Ok(_) => Outcome::Done(final(st)@),
            Err(e) => Outcome::Failed(e@),
        }),
{
    let place = locate(dirs_attr, &o.path);
    let mut dirs_candidate = empty_stack();
    if let Some(dir) = parent(&place) {
        push_back(&mut dirs_candidate, dir);
    }
    let module_name = clone_strings(module);
    let ghost asked_module = strings_model(module_name@);
    let ghost asked_path = place@;
    let answer = resolver.resolve(module_name, place);
    let ghost exchange = FileExchange {
        module: asked_module,
        path: asked_path,
        answer: file_answer(answer),
    };
    match answer {
        Err(e) => (Err(e), Ghost(Some(exchange))),
        Ok(result) => {
            let ghost places_before = st.expansion_candidates@;
            let ghost cfgs_before = st.accumulated_cfgs@;
            let cfg = match &o.guard {
                Some(guard) => {
                    st.accumulated_cfgs.push(clone_tokens(guard));
                    Some(clone_tokens(guard))
                },
                None => {
                    st.need_to_try_natural_file_locations = false;
                    None
                },
            };
            if !multi {
                st.need_to_try_natural_file_locations = false;
            }
            let found = ExpandedModuleInfo {
                result,
                dirs_attr: clone_stack(&dirs_candidate),
                dirs_nat: dirs_candidate,
                cfg,
            };
            st.expansion_candidates.push(found);
            proof {
                assert(vector_contents(found.dirs_nat) =~= holding_dirs(asked_path));
                assert(candidates_model(st.expansion_candidates@) =~= candidates_model(
                    places_before,
                ).push(found@));
                if o.guard is Some {
                    assert(token_runs_model(st.accumulated_cfgs@) =~= token_runs_model(
                        cfgs_before,
                    ).push(tokens_model(o.guard->Some_0@)));
                }
            }
            (Ok(()), Ghost(Some(exchange)))
        },
    }
}

/// What is to be done with a location override, given the verdict on its guard
/// (`None`: it has no guard) and the number of places tried before it.
pub fn admit_override(verdict: Option<bool>, tried: usize, multi: bool) -> (r: Admission)
    ensures
        r == admission(verdict, tried as nat, multi),
{
    match verdict {
        Some(false) => Admission::Skip,
        _ => if tried > 0 && !multi {
            Admission::Conflict
        } else {
            Admission::Take
        },
    }
}

/// Takes one more location override into the search.
fn try_override<R: Resolver>(
    o: &LocationOverride,
    module: &Vec<String>,
    dirs_attr: &Vec<String>,
    multi: bool,
    st: &mut SearchState,
    resolver: &mut R,
) -> (r: (Result<(), Error>, Ghost<OverrideExchange>))
    requires
        old(resolver).admits_every_request(),
    ensures
        final(resolver).admits_every_request(),
        step_override(o@, strings_model(module@), strings_model(dirs_attr@), multi, old(st)@, r.1@)
            == (match r.0 {
            Ok(_) => Outcome::Done(final(st)@),
            Err(e) => Outcome::Failed(e@),
        }),
{
    let mut asked: Ghost<Option<GuardExchange>> = Ghost(None);
    let verdict = match &o.guard {
        None => None,
        Some(guard) => {
            let cfg = clone_tokens(guard);
            let ghost question = tokens_model(cfg@);
            let answer = resolver.check_cfg(cfg);
            proof {
                asked@ = Some(GuardExchange { asked: question, answer: guard_answer(answer) });
            }
            match answer {
                Err(message) => {
                    return (
                        Err(fail(module, ErrorCase::ErrorFromCallback(message))),
                        Ghost(OverrideExchange { guard: asked@, file: None }),
                    );
                },
                Ok(holds) => Some(holds),
            }
        },
    };
    match admit_override(verdict, st.expansion_candidates.len(), multi) {
        Admission::Skip => (Ok(()), Ghost(OverrideExchange { guard: asked@, file: None })),
        Admission::Conflict => (
            Err(fail(module, ErrorCase::MultipleExplicitPathsSpecifiedForOneModule)),
            Ghost(OverrideExchange { guard: asked@, file: None }),
        ),
        Admission::Take => {
            let (outcome, file) = fetch(o, module, dirs_attr, multi, st, resolver);
            (outcome, Ghost(OverrideExchange { guard: asked@, file: file@ }))
        },
    }
}

/// Goes through the location overrides of a declaration in order.
fn try_overrides<R: Resolver>(
    overrides: &Vec<LocationOverride>,
    module: &Vec<String>,
    dirs_attr: &Vec<String>,
    multi: bool,
    resolver: &mut R,
) -> (r: (Result<SearchState, Error>, Ghost<Seq<OverrideExchange>>))
    requires
        old(resolver).admits_every_request(),
    ensures
        final(resolver).admits_every_request(),
        replay_overrides(
            overrides_model(overrides@),
            strings_model(module@),
            strings_model(dirs_attr@),
            multi,
            r.1@,
        ) == (match r.0 {
            Ok(st) => Outcome::Done(st@),
            Err(e) => Outcome::Failed(e@),
        }),
        r.0 is Ok ==> r.1@.len() == overrides.len(),
{
    let ghost model = overrides_model(overrides@);
    let mut st = SearchState {
        expansion_candidates: Vec::new(),
        accumulated_cfgs: Vec::new(),
        need_to_try_natural_file_locations: true,
    };
    let mut said: Ghost<Seq<OverrideExchange>> = Ghost(Seq::empty());
    let mut i: usize = 0;
    proof {
        assert(st@.candidates =~= Seq::<Candidate>::empty());
        assert(st@.accepted =~= Seq::<Seq<TokenModel>>::empty());
    }
    while i < overrides.len()
        invariant
            resolver.admits_every_request(),
            i <= overrides.len(),
            model == overrides_model(overrides@),
            said@.len() == i,
            replay_overrides(
                model,
                strings_model(module@),
                strings_model(dirs_attr@),
                multi,
                said@,
            ) == Outcome::Done(st@),
        decreases overrides.len() - i,
    {
        let (outcome, exchange) = try_override(
            &overrides[i],
            module,
            dirs_attr,
            multi,
            &mut st,
            resolver,
        );
        proof {
            let before = said@;
            said@ = before.push(exchange@);
            assert(said@.drop_last() =~= before);
        }
        match outcome {
            Ok(_) => {},
            Err(e) => {
                return (Err(e), said);
            },
        }
        i = i + 1;
    }
    (Ok(st), said)
}

/// The place that follows from the name of a module, given what was found as
/// `name.rs` and as `name/mod.rs`.
pub fn choose_conventional(
    flat: Option<Tree>,
    index: Option<Tree>,
    name: &String,
    module: &Vec<String>,
    dirs_nat: &im_rc::Vector<String>,
    dirs_attr: &im_rc::Vector<String>,
    cfg: Option<Vec<Token>>,
) -> (r: Result<ExpandedModuleInfo, Error>)
    ensures
        conventional_choice(
            found_model(flat),
            found_model(index),
            name@,
            strings_model(module@),
            vector_contents(*dirs_nat),
            vector_contents(*dirs_attr),
            guard_model(cfg),
        ) == (match r {
            Ok(c) => Ok::<Candidate, ErrorModel>(c@),
            Err(e) => Err::<Candidate, ErrorModel>(e@),
        }),
{
    match (flat, index) {
        (Some(_), Some(_)) => Err(fail(module, ErrorCase::BothModRsAndNameRsPresent)),
        (Some(tree), None) => {
            let mut deeper = clone_stack(dirs_nat);
            push_back(&mut deeper, name.clone());
            Ok(
                ExpandedModuleInfo {
                    result: Some(tree),
                    dirs_attr: clone_stack(dirs_nat),
                    dirs_nat: deeper,
                    cfg,
                },
            )
        },
        (None, Some(tree)) => {
            let mut deeper = clone_stack(dirs_nat);
            push_back(&mut deeper, name.clone());
            Ok(
                ExpandedModuleInfo {
                    result: Some(tree),
                    dirs_attr: clone_stack(&deeper),
                    dirs_nat: deeper,
                    cfg,
                },
            )
        },
        (None, None) => Ok(
            ExpandedModuleInfo {
                result: None,
                dirs_attr: clone_stack(dirs_attr),
                dirs_nat: clone_stack(dirs_nat),
                cfg,
            },
        ),
    }
}

/// Where expansion stands, as the stacks that it carries say.
pub open spec fn context_of(
    modules_stack: im_rc::Vector<String>,
    dirs_nat: im_rc::Vector<String>,
    dirs_attr: im_rc::Vector<String>,
    multi: bool,
) -> Context {
    Context {
        modules: vector_contents(modules_stack),
        natural: vector_contents(dirs_nat),
        explicit: vector_contents(dirs_attr),
        multi,
    }
}

/// Tries the places that follow from the name of a module, unless the
/// overrides settled where it is, and gives all places tried.
fn try_conventional<R: Resolver>(
    name: &String,
    module: &Vec<String>,
    dirs_nat: &im_rc::Vector<String>,
    dirs_attr: &im_rc::Vector<String>,
    multi: bool,
    st: SearchState,
    resolver: &mut R,
    Ghost(ctx): Ghost<Context>,
) -> (r: (Result<Vec<ExpandedModuleInfo>, Error>, Ghost<(Option<FileExchange>, Option<FileExchange>)>))
    requires
        old(resolver).admits_every_request(),
        ctx.natural == vector_contents(*dirs_nat),
        ctx.explicit == vector_contents(*dirs_attr),
        ctx.multi == multi,
    ensures
        final(resolver).admits_every_request(),
        conventional_places(name@, strings_model(module@), ctx, st@, r.1@.0, r.1@.1) == (match r.0 {
            Ok(places) => Outcome::Done(candidates_model(places@)),
            Err(e) => Outcome::Failed(e@),
        }),
{
    if !st.need_to_try_natural_file_locations {
        return (Ok(st.expansion_candidates), Ghost((None, None)));
    }
    let natural = stack_items(dirs_nat);
    let module_file_nomod = locate(&natural, &followed_by(name, ".rs"));
    let module_file_mod = join(&locate(&natural, name), &String::from_str("mod.rs"));
    proof {
        reveal_strlit(".rs");
        reveal_strlit("mod.rs");
        assert(".rs"@ =~= seq!['.', 'r', 's']);
        assert("mod.rs"@ =~= index_file());
    }
    let ghost flat_path = module_file_nomod@;
    let ghost index_path = module_file_mod@;
    let module_name = clone_strings(module);
    let ghost asked_module = strings_model(module_name@);
    let inner_nomod = resolver.resolve(module_name, module_file_nomod);
    let ghost flat_exchange = FileExchange {
        module: asked_module,
        path: flat_path,
        answer: file_answer(inner_nomod),
    };
    let flat = match inner_nomod {
        Ok(found) => found,
        Err(e) => {
            if e.is_missing_file() {
                None
            } else {
                return (Err(e), Ghost((Some(flat_exchange), None)));
            }
        },
    };
    let module_name = clone_strings(module);
    let ghost asked_module = strings_model(module_name@);
    let inner_mod = resolver.resolve(module_name, module_file_mod);
    let ghost index_exchange = FileExchange {
        module: asked_module,
        path: index_path,
        answer: file_answer(inner_mod),
    };
    let index = match inner_mod {
        Ok(found) => found,
        Err(e) => {
            if e.is_missing_file() {
                None
            } else {
                return (Err(e), Ghost((Some(flat_exchange), Some(index_exchange))));
            }
        },
    };
    let cfg = if multi && st.accumulated_cfgs.len() > 0 {
        Some(residual_cfg(&st.accumulated_cfgs))
    } else {
        None
    };
    match choose_conventional(flat, index, name, module, dirs_nat, dirs_attr, cfg) {
        Err(e) => (Err(e), Ghost((Some(flat_exchange), Some(index_exchange)))),
        Ok(place) => {
            let mut places = st.expansion_candidates;
            let ghost before = places@;
            places.push(place);
            proof {
                assert(candidates_model(places@) =~= candidates_model(before).push(place@));
            }
            (Ok(places), Ghost((Some(flat_exchange), Some(index_exchange))))
        },
    }
}

/// The declaration `m` with a body: its attributes are the `kept` ones, then
/// `#[cfg(..)]` with the guard of the place where copies are allowed and the
/// place has a guard, then the `leading` attributes of the file found; its
/// items are `items`.
pub fn splice(
    m: &Module,
    kept: &Vec<Attribute>,
    cfg: &Option<Vec<Token>>,
    multi: bool,
    leading: &Vec<Attribute>,
    items: Vec<Item>,
) -> (r: Module)
    ensures
        r@ == spliced(
            m@,
            attributes_model(kept@),
            copy_guard(guard_model(*cfg), multi),
            attributes_model(leading@),
            items_model(items@),
        ),
{
    let mut attrs_copy = clone_attributes(kept);
    if multi {
        if let Some(guard) = cfg {
            let ghost before = attrs_copy@;
            let attr = cfg_attribute_of(guard);
            attrs_copy.push(attr);
            proof {
                lemma_attributes_model_push(before, attr);
                assert(attributes_model(attrs_copy@) =~= attributes_model(kept@) + seq![attr@]);
            }
        }
    }
    proof {
        assert(attributes_model(attrs_copy@) =~= attributes_model(kept@) + copy_guard(
            guard_model(*cfg),
            multi,
        ));
    }
    append_attributes(&mut attrs_copy, leading);
    Module { attrs: attrs_copy, vis: m.vis.clone(), name: m.name.clone(), content: Some(items) }
}

/// Appends copies of `more` to `attrs`.
fn append_attributes(attrs: &mut Vec<Attribute>, more: &Vec<Attribute>)
    ensures
        attributes_model(final(attrs)@) == attributes_model(old(attrs)@) + attributes_model(more@),
{
    let ghost before = attrs@;
    let mut copied = clone_attributes(more);
    let ghost added = copied@;
    attrs.append(&mut copied);
    proof {
        assert(attributes_model(before + added) =~= attributes_model(before) + attributes_model(
            added,
        ));
    }
}

/// Expands the declaration `m`, a module without a body: finds out where its
/// file is, and gives what stands in its place afterwards.
fn expand_module<R: Resolver>(
    m: &Module,
    resolver: &mut R,
    modules_stack: &im_rc::Vector<String>,
    dirs_nat: &im_rc::Vector<String>,
    dirs_attr: &im_rc::Vector<String>,
    multi: bool,
) -> (r: (Result<Vec<Item>, Error>, Ghost<Dialogue>))
    requires
        old(resolver).admits_every_request(),
        m.content is None,
    ensures
        final(resolver).admits_every_request(),
        replay_item(
            ItemModel::Module(m@),
            context_of(*modules_stack, *dirs_nat, *dirs_attr, multi),
            r.1@,
        ) == (match r.0 {
            Ok(items) => Outcome::Done(items_model(items@)),
            Err(e) => Outcome::Failed(e@),
        }),
    decreases usize::MAX - vector_contents(*modules_stack).len(), 0int,
{
    let ghost ctx = context_of(*modules_stack, *dirs_nat, *dirs_attr, multi);
    let mut inner_stack = clone_stack(modules_stack);
    push_back(&mut inner_stack, m.name.clone());
    // The length fits in a `usize`, which bounds how deep modules can nest.
    let depth = stack_len(&inner_stack);
    let module = stack_items(&inner_stack);
    let ghost mut d = Dialogue {
        guards: Seq::empty(),
        overrides: Seq::empty(),
        flat: None,
        index: None,
        nested: Seq::empty(),
    };

    let mut path_attrs: Vec<LocationOverride> = Vec::new();
    let mut attrs: Vec<Attribute> = Vec::new();
    let mut cfg_attrs: Vec<Vec<Token>> = Vec::new();
    let sorted = read_and_process_attributes(&m.attrs, &mut path_attrs, &mut attrs, &mut cfg_attrs);
    let ghost classified = classify(m@.attrs);
    proof {
        assert(overrides_model(Seq::<LocationOverride>::empty()) + classified.overrides
            =~= classified.overrides);
        assert(attributes_model(Seq::<Attribute>::empty()) + classified.rest =~= classified.rest);
        assert(token_runs_model(Seq::<Vec<Token>>::empty()) + classified.guards
            =~= classified.guards);
    }
    match sorted {
        Err(e) => {
            return (Err(fail(&module, ErrorCase::AttrParseError(e))), Ghost(d));
        },
        Ok(_) => {},
    }
    let (verdict, said) = evaluate_guards(&cfg_attrs, resolver);
    proof {
        d = Dialogue { guards: said@, ..d };
    }
    match verdict {
        Err(message) => {
            return (Err(fail(&module, ErrorCase::ErrorFromCallback(message))), Ghost(d));
        },
        Ok(false) => {
            let nothing: Vec<Item> = Vec::new();
            proof {
                assert(items_model(nothing@) =~= Seq::<ItemModel>::empty());
            }
            return (Ok(nothing), Ghost(d));
        },
        Ok(true) => {},
    }
    let explicit = stack_items(dirs_attr);
    let (search, said) = try_overrides(&path_attrs, &module, &explicit, multi, resolver);
    proof {
        d = Dialogue { overrides: said@, ..d };
    }
    let st = match search {
        Err(e) => {
            return (Err(e), Ghost(d));
        },
        Ok(st) => st,
    };
    let (places, asked) = try_conventional(
        &m.name,
        &module,
        dirs_nat,
        dirs_attr,
        multi,
        st,
        resolver,
        Ghost(ctx),
    );
    proof {
        d = Dialogue { flat: asked@.0, index: asked@.1, ..d };
    }
    let expansion_candidates = match places {
        Err(e) => {
            return (Err(e), Ghost(d));
        },
        Ok(places) => places,
    };
    let ghost candidates = candidates_model(expansion_candidates@);
    assert(plan(m@, ctx, d) == Outcome::Done(Plan::Candidates(candidates)));

    let mut made: Vec<Item> = Vec::new();
    let ghost mut nested: Seq<Seq<Dialogue>> = Seq::empty();
    let mut k: usize = 0;
    proof {
        assert(items_model(made@) =~= Seq::<ItemModel>::empty());
    }
    while k < expansion_candidates.len()
        invariant
            resolver.admits_every_request(),
            k <= expansion_candidates.len(),
            nested.len() == k,
            m.content is None,
            candidates == candidates_model(expansion_candidates@),
            ctx == context_of(*modules_stack, *dirs_nat, *dirs_attr, multi),
            classified == classify(m@.attrs),
            attributes_model(attrs@) == classified.rest,
            vector_contents(inner_stack) == ctx.modules.push(m.name@),
            depth == vector_contents(inner_stack).len(),
            copies(m@, ctx, candidates, nested) == Outcome::Done(items_model(made@)),
            plan(m@, ctx, d) == Outcome::Done(Plan::Candidates(candidates)),
        decreases expansion_candidates.len() - k,
    {
        let place = &expansion_candidates[k];
        let ghost before = nested;
        assert(candidates[k as int] == place@);
        match &place.result {
            None => {
                proof {
                    nested = before.push(Seq::empty());
                    assert(nested.drop_last() =~= before);
                }
            },
            Some(tree) => {
                let (expanded, script) = expand_impl(
                    &tree.items,
                    resolver,
                    &inner_stack,
                    &place.dirs_nat,
                    &place.dirs_attr,
                    multi,
                );
                proof {
                    nested = before.push(script@);
                    assert(nested.drop_last() =~= before);
                }
                match expanded {
                    Err(e) => {
                        return (Err(e), Ghost(Dialogue { nested, ..d }));
                    },
                    Ok(inner_items) => {
                        let new_mod = splice(m, &attrs, &place.cfg, multi, &tree.attrs, inner_items);
                        let ghost made_before = made@;
                        made.push(Item::Module(new_mod));
                        proof {
                            lemma_items_model_push(made_before, Item::Module(new_mod));
                        }
                    },
                }
            },
        }
        k = k + 1;
    }
    proof {
        d = Dialogue { nested, ..d };
    }
    if made.len() == 0 {
        made.push(Item::Module(m.clone()));
        proof {
            assert(items_model(made@) =~= seq![ItemModel::Module(m@)]);
        }
    }
    (Ok(made), Ghost(d))
}

/// Expands the items `content` of the module `modules_stack`, whose children
/// are looked for by name below `dirs_nat`, and their `#[path]`s below
/// `dirs_attr`. With `multimodule_mode` a module may come out in several
/// copies. On success the result holds the items that take the place of
/// `content`.
pub(crate) fn expand_impl<R: Resolver>(
    content: &Vec<Item>,
    resolver: &mut R,
    modules_stack: &im_rc::Vector<String>,
    relative_path_where_to_look_for_nested_modules_naturally: &im_rc::Vector<String>,
    relative_path_where_to_look_for_nested_modules_when_using_path_attribute: &im_rc::Vector<
        String,
    >,
    multimodule_mode: bool,
) -> (r: (Result<Vec<Item>, Error>, Ghost<Seq<Dialogue>>))
    requires
        old(resolver).admits_every_request(),
    ensures
        final(resolver).admits_every_request(),
        expansion(
            items_model(content@),
            context_of(
                *modules_stack,
                *relative_path_where_to_look_for_nested_modules_naturally,
                *relative_path_where_to_look_for_nested_modules_when_using_path_attribute,
                multimodule_mode,
            ),
            r.1@,
        ) == (match r.0 {
            Ok(items) => Outcome::Done(items_model(items@)),
            Err(e) => Outcome::Failed(e@),
        }),
    decreases usize::MAX - vector_contents(*modules_stack).len(), 1int,
{
    let ghost ctx = context_of(
        *modules_stack,
        *relative_path_where_to_look_for_nested_modules_naturally,
        *relative_path_where_to_look_for_nested_modules_when_using_path_attribute,
        multimodule_mode,
    );
    let ghost model = items_model(content@);
    let mut out: Vec<Item> = Vec::new();
    let mut script: Ghost<Seq<Dialogue>> = Ghost(Seq::empty());
    let mut i: usize = 0;
    proof {
        assert(items_model(out@) =~= Seq::<ItemModel>::empty());
    }
    while i < content.len()
        invariant
            resolver.admits_every_request(),
            i <= content.len(),
            script@.len() == i,
            model == items_model(content@),
            ctx == context_of(
                *modules_stack,
                *relative_path_where_to_look_for_nested_modules_naturally,
                *relative_path_where_to_look_for_nested_modules_when_using_path_attribute,
                multimodule_mode,
            ),
            replay_items(model, ctx, script@) == Outcome::Done(items_model(out@)),
        decreases content.len() - i,
    {
        let ghost before = script@;
        let ghost out_before = out@;
        let external = match &content[i] {
            Item::Module(m) => m.content.is_none(),
            Item::Other(_) => false,
        };
        if external {
            if let Item::Module(m) = &content[i] {
                let (expanded, d) = expand_module(
                    m,
                    resolver,
                    modules_stack,
                    relative_path_where_to_look_for_nested_modules_naturally,
                    relative_path_where_to_look_for_nested_modules_when_using_path_attribute,
                    multimodule_mode,
                );
                proof {
                    script@ = before.push(d@);
                    assert(script@.drop_last() =~= before);
                }
                match expanded {
                    Err(e) => {
                        return (Err(e), script);
                    },
                    Ok(mut items) => {
                        let ghost added = items@;
                        out.append(&mut items);
                        proof {
                            assert(items_model(out_before + added) =~= items_model(out_before)
                                + items_model(added));
                        }
                    },
                }
            }
        } else {
            let item = content[i].clone();
            out.push(item);
            proof {
                script@ = before.push(
                    Dialogue {
                        guards: Seq::empty(),
                        overrides: Seq::empty(),
                        flat: None,
                        index: None,
                        nested: Seq::empty(),
                    },
                );
                assert(script@.drop_last() =~= before);
                lemma_items_model_push(out_before, item);
                assert(items_model(out_before).push(item@) =~= items_model(out_before) + seq![
                    model[i as int],
                ]);
            }
        }
        i = i + 1;
    }
    (Ok(out), script)
}

} // verus!
