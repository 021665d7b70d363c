//! The rules of expansion, stated over the values of trees: what comes out
//! for a given tree and given answers of the resolver.
use vstd::prelude::*;
use crate::attrs::{classify, OverrideModel};
use crate::error::{ErrorCaseModel, ErrorModel};
use crate::paths::{flat_file, holding_dirs, index_file, joined, located};
use crate::token::{Delimiter, TokenModel};
use crate::tree::{AttrStyle, AttributeModel, ItemModel, ModuleModel, TreeModel};

verus! {

/// Where expansion stands: the module whose items are being gone through, and
/// the directories in which the files of its child modules are looked for.
pub struct Context {
    /// The names of the modules from the root down to this one.
    pub modules: Seq<Seq<char>>,
    /// The directories below which a child is looked for by its name.
    pub natural: Seq<Seq<char>>,
    /// The directories below which a child's `#[path]` is looked for.
    pub explicit: Seq<Seq<char>>,
    /// Whether a module may come out in several copies.
    pub multi: bool,
}

/// Where the expansion of a root file starts.
pub open spec fn root_context(multi: bool) -> Context {
    Context { modules: Seq::empty(), natural: Seq::empty(), explicit: Seq::empty(), multi }
}

/// One evaluation of a guard: what was asked and what came back.
pub struct GuardExchange {
    pub asked: Seq<TokenModel>,
    pub answer: Result<bool, Seq<char>>,
}

/// One request for a file: what was asked and what came back.
pub struct FileExchange {
    pub module: Seq<Seq<char>>,
    pub path: Seq<char>,
    pub answer: Result<Option<TreeModel>, ErrorModel>,
}

/// What was exchanged with the resolver over one location override.
pub struct OverrideExchange {
    pub guard: Option<GuardExchange>,
    pub file: Option<FileExchange>,
}

/// All that was exchanged with the resolver while one item was expanded.
pub struct Dialogue {
    /// The evaluations of the declaration's own guards, up to the one that decided.
    pub guards: Seq<GuardExchange>,
    /// The exchanges over its location overrides, up to the one that decided.
    pub overrides: Seq<OverrideExchange>,
    /// The request for `name.rs`.
    pub flat: Option<FileExchange>,
    /// The request for `name/mod.rs`.
    pub index: Option<FileExchange>,
    /// For each place that was tried, in order, the dialogues over the items of
    /// the file found there.
    pub nested: Seq<Seq<Dialogue>>,
}

impl Dialogue {
    /// Whether nothing at all was exchanged.
    pub open spec fn is_silent(self) -> bool {
        self.guards.len() == 0 && self.ends_after_guards()
    }

    /// Whether nothing was exchanged once the guards were evaluated.
    pub open spec fn ends_after_guards(self) -> bool {
        self.overrides.len() == 0 && self.ends_after_overrides()
    }

    /// Whether nothing was exchanged once the overrides were gone through.
    pub open spec fn ends_after_overrides(self) -> bool {
        self.flat is None && self.index is None && self.ends_after_places()
    }

    /// Whether nothing was exchanged once the places were tried: no file was
    /// expanded.
    pub open spec fn ends_after_places(self) -> bool {
        self.nested.len() == 0
    }
}

/// How a replay of the rules against recorded exchanges ends.
pub enum Outcome<T> {
    /// The rules were followed to the end, with this result.
    Done(T),
    /// The rules were followed up to this failure.
    Failed(ErrorModel),
    /// The record is not one that the rules can lead to.
    Astray,
}

/// What the guards of a declaration say of it.
pub enum Verdict {
    /// Every guard asked so far holds.
    Pass,
    /// A guard does not hold: the declaration is left out.
    Elide,
    /// A guard could not be evaluated.
    Fail(Seq<char>),
    /// The record is not one that the rules can lead to.
    Astray,
}

/// The verdict of the guards `guards`, evaluated in order as `said` records.
/// Each guard is asked once, and none after one that does not hold or that
/// fails.
pub open spec fn replay_guards(guards: Seq<Seq<TokenModel>>, said: Seq<GuardExchange>) -> Verdict
    decreases said.len(),
{
    if said.len() == 0 {
        Verdict::Pass
    } else {
        match replay_guards(guards, said.drop_last()) {
            Verdict::Pass => {
                if said.len() > guards.len() || said.last().asked != guards[said.len() - 1] {
                    Verdict::Astray
                } else {
                    match said.last().answer {
                        Ok(true) => Verdict::Pass,
                        Ok(false) => Verdict::Elide,
                        Err(message) => Verdict::Fail(message),
                    }
                }
            },
            _ => Verdict::Astray,
        }
    }
}

/// A place where the file of a module was looked for, and what is to hold for
/// the module if it comes from there.
pub struct Candidate {
    /// The file found at the place, if there was one.
    pub found: Option<TreeModel>,
    /// Where the children of the module are looked for by name.
    pub natural: Seq<Seq<char>>,
    /// Where the `#[path]`s of its children are looked for.
    pub explicit: Seq<Seq<char>>,
    /// The guard under which this place applies.
    pub guard: Option<Seq<TokenModel>>,
}

/// What is known after some of the location overrides of a declaration.
pub struct Search {
    /// The places tried so far.
    pub candidates: Seq<Candidate>,
    /// The guards of the overrides that applied.
    pub accepted: Seq<Seq<TokenModel>>,
    /// Whether the places that follow from the module's name are still to be tried.
    pub conventional: bool,
}

/// The failure of one module for the given cause.
pub open spec fn failure(module: Seq<Seq<char>>, inner: ErrorCaseModel) -> ErrorModel {
    ErrorModel { module, inner }
}

/// The search after the request for the file of override `o` was answered as
/// `file` records.
pub open spec fn fetch_override(
    o: OverrideModel,
    module: Seq<Seq<char>>,
    explicit: Seq<Seq<char>>,
    multi: bool,
    st: Search,
    file: Option<FileExchange>,
) -> Outcome<Search> {
    let place = located(explicit, o.path);
    match file {
        None => Outcome::Astray,
        Some(exchange) => {
            if exchange.module != module || exchange.path != place {
                Outcome::Astray
            } else {
                match exchange.answer {
                    Err(e) => Outcome::Failed(e),
                    Ok(found) => Outcome::Done(
                        Search {
                            candidates: st.candidates.push(
                                Candidate {
                                    found,
                                    natural: holding_dirs(place),
                                    explicit: holding_dirs(place),
                                    guard: o.guard,
                                },
                            ),
                            accepted: match o.guard {
                                Some(g) => st.accepted.push(g),
                                None => st.accepted,
                            },
                            conventional: o.guard is Some && st.conventional && multi,
                        },
                    ),
                }
            }
        },
    }
}

/// What is to be done with a location override.
#[derive(Debug, Clone, Copy, PartialEq, Eq, Structural)]
pub enum Admission {
    /// It applies: its file is asked for.
    Take,
    /// Its guard does not hold: it is passed over.
    Skip,
    /// It applies, but another one did before, and copies are not allowed.
    Conflict,
}

/// What is to be done with a location override, given the verdict on its
/// guard (`None`: it has no guard) and the number of places tried before.
/// An override without a guard always applies; one with a guard applies where
/// the guard holds. Unless copies are allowed, a second override that applies
/// is a conflict.
pub open spec fn admission(verdict: Option<bool>, tried: nat, multi: bool) -> Admission {
    if verdict == Some(false) {
        Admission::Skip
    } else if tried > 0 && !multi {
        Admission::Conflict
    } else {
        Admission::Take
    }
}

/// The verdict on the guard of the override `o`, as `said` records it; `None`
/// where it has no guard, and then none is recorded.
pub open spec fn override_verdict(
    o: OverrideModel,
    module: Seq<Seq<char>>,
    said: OverrideExchange,
) -> Outcome<Option<bool>> {
    match o.guard {
        None => if said.guard is None {
            Outcome::Done(None)
        } else {
            Outcome::Astray
        },
        Some(g) => match said.guard {
            None => Outcome::Astray,
            Some(exchange) => {
                if exchange.asked != g {
                    Outcome::Astray
                } else {
                    match exchange.answer {
                        Err(message) => Outcome::Failed(
                            failure(module, ErrorCaseModel::ErrorFromCallback(message)),
                        ),
                        Ok(holds) => Outcome::Done(Some(holds)),
                    }
                }
            },
        },
    }
}

/// The search after one more location override: its guard, if it has one, is
/// evaluated first; then it is admitted or not; then, if it applies, its file
/// is asked for below the `explicit` directories, and not otherwise.
pub open spec fn step_override(
    o: OverrideModel,
    module: Seq<Seq<char>>,
    explicit: Seq<Seq<char>>,
    multi: bool,
    st: Search,
    said: OverrideExchange,
) -> Outcome<Search> {
    match override_verdict(o, module, said) {
        Outcome::Astray => Outcome::Astray,
        Outcome::Failed(e) => if said.file is None {
            Outcome::Failed(e)
        } else {
            Outcome::Astray
        },
        Outcome::Done(verdict) => match admission(verdict, st.candidates.len(), multi) {
            Admission::Skip => if said.file is None {
                Outcome::Done(st)
            } else {
                Outcome::Astray
            },
            Admission::Conflict => if said.file is None {
                Outcome::Failed(
                    failure(module, ErrorCaseModel::MultipleExplicitPathsSpecifiedForOneModule),
                )
            } else {
                Outcome::Astray
            },
            Admission::Take => fetch_override(o, module, explicit, multi, st, said.file),
        },
    }
}

/// The search before any override.
pub open spec fn fresh_search() -> Search {
    Search { candidates: Seq::empty(), accepted: Seq::empty(), conventional: true }
}

/// The search after the overrides that `said` records, taken in order. None is
/// looked at after one that failed.
pub open spec fn replay_overrides(
    overrides: Seq<OverrideModel>,
    module: Seq<Seq<char>>,
    explicit: Seq<Seq<char>>,
    multi: bool,
    said: Seq<OverrideExchange>,
) -> Outcome<Search>
    decreases said.len(),
{
    if said.len() == 0 {
        Outcome::Done(fresh_search())
    } else {
        match replay_overrides(overrides, module, explicit, multi, said.drop_last()) {
            Outcome::Done(st) => {
                if said.len() > overrides.len() {
                    Outcome::Astray
                } else {
                    step_override(
                        overrides[said.len() - 1],
                        module,
                        explicit,
                        multi,
                        st,
                        said.last(),
                    )
                }
            },
            _ => Outcome::Astray,
        }
    }
}

/// `guards` with a comma between each two.
pub open spec fn comma_separated(guards: Seq<Seq<TokenModel>>) -> Seq<TokenModel>
    decreases guards.len(),
{
    if guards.len() == 0 {
        Seq::empty()
    } else if guards.len() == 1 {
        guards[0]
    } else {
        comma_separated(guards.drop_last()).push(TokenModel::Punct(',')) + guards.last()
    }
}

/// The guard that holds where none of `guards` does: `not(any(g1, g2, ..))`.
pub open spec fn residual_guard(guards: Seq<Seq<TokenModel>>) -> Seq<TokenModel> {
    seq![
        TokenModel::Ident("not"@),
        TokenModel::Group(
            Delimiter::Parenthesis,
            seq![
                TokenModel::Ident("any"@),
                TokenModel::Group(Delimiter::Parenthesis, comma_separated(guards)),
            ],
        ),
    ]
}

/// The file that an answer holds, if it holds one.
pub open spec fn found_in(answer: Result<Option<TreeModel>, ErrorModel>) -> Option<TreeModel> {
    match answer {
        Ok(Some(tree)) => Some(tree),
        _ => None,
    }
}

/// Whether an answer ends the expansion: it is a failure other than a file
/// that could not be opened.
pub open spec fn is_fatal(answer: Result<Option<TreeModel>, ErrorModel>) -> bool {
    answer matches Err(e) && !e.is_missing_file()
}

/// The place that follows from the module's name, given what was found as
/// `name.rs` and as `name/mod.rs`. Both at once is a failure. A module found
/// as either has its children looked for by name one directory further down.
/// Their `#[path]`s are looked for beside `name.rs`, or beside `name/mod.rs`.
pub open spec fn conventional_choice(
    flat: Option<TreeModel>,
    index: Option<TreeModel>,
    name: Seq<char>,
    module: Seq<Seq<char>>,
    natural: Seq<Seq<char>>,
    explicit: Seq<Seq<char>>,
    guard: Option<Seq<TokenModel>>,
) -> Result<Candidate, ErrorModel> {
    match (flat, index) {
        (Some(_), Some(_)) => Err(failure(module, ErrorCaseModel::BothModRsAndNameRsPresent)),
        (Some(tree), None) => Ok(
            Candidate {
                found: Some(tree),
                natural: natural.push(name),
                explicit: natural,
                guard,
            },
        ),
        (None, Some(tree)) => Ok(
            Candidate {
                found: Some(tree),
                natural: natural.push(name),
                explicit: natural.push(name),
                guard,
            },
        ),
        (None, None) => Ok(
            Candidate { found: None, natural, explicit, guard },
        ),
    }
}

/// The guard of the place that follows from the name: where copies are
/// allowed and overrides with guards applied, it is what is left when none of
/// those guards holds.
pub open spec fn conventional_guard(multi: bool, accepted: Seq<Seq<TokenModel>>) -> Option<
    Seq<TokenModel>,
> {
    if multi && accepted.len() > 0 {
        Some(residual_guard(accepted))
    } else {
        None
    }
}

/// All places of a module, after its overrides left the search `st`. Where
/// the places that follow from the name are still to be tried, `name.rs` is
/// asked for first and `name/mod.rs` second, both below the `natural`
/// directories; a file that cannot be opened counts as absent, and any other
/// failure ends the expansion at once. Where they are not to be tried, neither
/// is asked for.
pub open spec fn conventional_places(
    name: Seq<char>,
    module: Seq<Seq<char>>,
    ctx: Context,
    st: Search,
    flat: Option<FileExchange>,
    index: Option<FileExchange>,
) -> Outcome<Seq<Candidate>> {
    if !st.conventional {
        if flat is None && index is None {
            Outcome::Done(st.candidates)
        } else {
            Outcome::Astray
        }
    } else {
        match (flat, index) {
            (None, _) => Outcome::Astray,
            (Some(f), _) => {
                if f.module != module || f.path != located(ctx.natural, flat_file(name)) {
                    Outcome::Astray
                } else if is_fatal(f.answer) {
                    if index is None {
                        Outcome::Failed(f.answer->Err_0)
                    } else {
                        Outcome::Astray
                    }
                } else {
                    match index {
                        None => Outcome::Astray,
                        Some(x) => {
                            if x.module != module || x.path != joined(
                                located(ctx.natural, name),
                                index_file(),
                            ) {
                                Outcome::Astray
                            } else if is_fatal(x.answer) {
                                Outcome::Failed(x.answer->Err_0)
                            } else {
                                match conventional_choice(
                                    found_in(f.answer),
                                    found_in(x.answer),
                                    name,
                                    module,
                                    ctx.natural,
                                    ctx.explicit,
                                    conventional_guard(ctx.multi, st.accepted),
                                ) {
                                    Ok(candidate) => Outcome::Done(st.candidates.push(candidate)),
                                    Err(e) => Outcome::Failed(e),
                                }
                            }
                        },
                    }
                }
            },
        }
    }
}

/// What is to become of a declaration.
pub enum Plan {
    /// One of its guards does not hold: it is left out.
    Elided,
    /// These are the places tried for it.
    Candidates(Seq<Candidate>),
}

/// `outcome`, where the record ends as `ended` tells, and `Astray` where it
/// holds more: nothing is asked once a failure or a guard that does not hold
/// has decided.
pub open spec fn ending<T>(ended: bool, outcome: Outcome<T>) -> Outcome<T> {
    if ended {
        outcome
    } else {
        Outcome::Astray
    }
}

/// What is to become of the declaration `m`, a module without a body. Its
/// attributes are sorted first, then its guards evaluated, then its overrides
/// gone through, then the places that follow from its name. A malformed
/// attribute fails before anything is asked; after a guard that does not hold
/// or a failure nothing more is asked.
pub open spec fn plan(m: ModuleModel, ctx: Context, d: Dialogue) -> Outcome<Plan> {
    let module = ctx.modules.push(m.name);
    let sorted = classify(m.attrs);
    match sorted.error {
        Some(e) => ending(
            d.is_silent(),
            Outcome::Failed(failure(module, ErrorCaseModel::AttrParseError(e))),
        ),
        None => match replay_guards(sorted.guards, d.guards) {
            Verdict::Astray => Outcome::Astray,
            Verdict::Fail(message) => ending(
                d.ends_after_guards(),
                Outcome::Failed(failure(module, ErrorCaseModel::ErrorFromCallback(message))),
            ),
            Verdict::Elide => ending(d.ends_after_guards(), Outcome::Done(Plan::Elided)),
            Verdict::Pass => {
                if d.guards.len() != sorted.guards.len() {
                    Outcome::Astray
                } else {
                    match replay_overrides(
                        sorted.overrides,
                        module,
                        ctx.explicit,
                        ctx.multi,
                        d.overrides,
                    ) {
                        Outcome::Astray => Outcome::Astray,
                        Outcome::Failed(e) => ending(d.ends_after_overrides(), Outcome::Failed(e)),
                        Outcome::Done(st) => {
                            if d.overrides.len() != sorted.overrides.len() {
                                Outcome::Astray
                            } else {
                                match conventional_places(
                                    m.name,
                                    module,
                                    ctx,
                                    st,
                                    d.flat,
                                    d.index,
                                ) {
                                    Outcome::Astray => Outcome::Astray,
                                    Outcome::Failed(e) => ending(
                                        d.ends_after_places(),
                                        Outcome::Failed(e),
                                    ),
                                    Outcome::Done(candidates) => Outcome::Done(
                                        Plan::Candidates(candidates),
                                    ),
                                }
                            }
                        },
                    }
                }
            },
        },
    }
}

/// The attribute `#[cfg(guard)]`.
pub open spec fn cfg_attribute(guard: Seq<TokenModel>) -> AttributeModel {
    AttributeModel {
        style: AttrStyle::Outer,
        key: "cfg"@,
        payload: seq![TokenModel::Group(Delimiter::Parenthesis, guard)],
    }
}

/// The guard that a copy of a module carries: that of its place, where copies
/// are allowed and the place has one.
pub open spec fn copy_guard(guard: Option<Seq<TokenModel>>, multi: bool) -> Seq<AttributeModel> {
    match guard {
        Some(g) => if multi {
            seq![cfg_attribute(g)]
        } else {
            Seq::empty()
        },
        None => Seq::empty(),
    }
}

/// The declaration `m` with a body: its attributes are the `kept` ones of the
/// declaration, then the guard of the copy, then the leading attributes of the
/// file; its items are `items`.
pub open spec fn spliced(
    m: ModuleModel,
    kept: Seq<AttributeModel>,
    guard: Seq<AttributeModel>,
    leading: Seq<AttributeModel>,
    items: Seq<ItemModel>,
) -> ModuleModel {
    ModuleModel { attrs: kept + guard + leading, vis: m.vis, name: m.name, content: Some(items) }
}

/// The context for the items of a module that was found at a place.
pub open spec fn inner_context(module: Seq<Seq<char>>, c: Candidate, multi: bool) -> Context {
    Context { modules: module, natural: c.natural, explicit: c.explicit, multi }
}

/// What comes out for the items `items` in order, as far as `script` records:
/// one dialogue for each item. No item is looked at after one that failed.
pub open spec fn replay_items(items: Seq<ItemModel>, ctx: Context, script: Seq<Dialogue>) -> Outcome<
    Seq<ItemModel>,
>
    decreases script, 0int,
{
    if script.len() == 0 {
        Outcome::Done(Seq::empty())
    } else {
        match replay_items(items, ctx, script.drop_last()) {
            Outcome::Done(out) => {
                if script.len() > items.len() {
                    Outcome::Astray
                } else {
                    match replay_item(items[script.len() - 1], ctx, script.last()) {
                        Outcome::Done(more) => Outcome::Done(out + more),
                        Outcome::Failed(e) => Outcome::Failed(e),
                        Outcome::Astray => Outcome::Astray,
                    }
                }
            },
            _ => Outcome::Astray,
        }
    }
}

/// What comes out for all of `items`: each item in its turn, with one
/// dialogue for each, unless one fails.
pub open spec fn expansion(items: Seq<ItemModel>, ctx: Context, script: Seq<Dialogue>) -> Outcome<
    Seq<ItemModel>,
>
    decreases script, 1int,
{
    match replay_items(items, ctx, script) {
        Outcome::Done(out) => if script.len() == items.len() {
            Outcome::Done(out)
        } else {
            Outcome::Astray
        },
        other => other,
    }
}

/// What comes out for one item. An item that is no module, and a module with
/// a body, come out as they are, and nothing is asked for them. A module without a body is left out where
/// a guard of its own does not hold. Otherwise it comes out once for each
/// place at which a file was found, with that file's items expanded in their
/// turn; where no file was found, it comes out as it is.
pub open spec fn replay_item(item: ItemModel, ctx: Context, d: Dialogue) -> Outcome<Seq<ItemModel>>
    decreases d, 0int,
{
    match item {
        ItemModel::Other(_) => ending(d.is_silent(), Outcome::Done(seq![item])),
        ItemModel::Module(m) => {
            if m.content is Some {
                ending(d.is_silent(), Outcome::Done(seq![item]))
            } else {
                match plan(m, ctx, d) {
                    Outcome::Astray => Outcome::Astray,
                    Outcome::Failed(e) => Outcome::Failed(e),
                    Outcome::Done(Plan::Elided) => Outcome::Done(Seq::empty()),
                    Outcome::Done(Plan::Candidates(candidates)) => {
                        match copies(m, ctx, candidates, d.nested) {
                            Outcome::Astray => Outcome::Astray,
                            Outcome::Failed(e) => Outcome::Failed(e),
                            Outcome::Done(made) => {
                                if d.nested.len() != candidates.len() {
                                    Outcome::Astray
                                } else if made.len() == 0 {
                                    Outcome::Done(seq![item])
                                } else {
                                    Outcome::Done(made)
                                }
                            },
                        }
                    },
                }
            }
        },
    }
}

/// The copies of the declaration `m` for the places `candidates`, as far as
/// `nested` records: one run of dialogues for each place, in order. A place
/// without a file gives no copy, and its run is empty.
pub open spec fn copies(
    m: ModuleModel,
    ctx: Context,
    candidates: Seq<Candidate>,
    nested: Seq<Seq<Dialogue>>,
) -> Outcome<Seq<ItemModel>>
    decreases nested, 0int,
{
    if nested.len() == 0 {
        Outcome::Done(Seq::empty())
    } else {
        match copies(m, ctx, candidates, nested.drop_last()) {
            Outcome::Done(made) => {
                if nested.len() > candidates.len() {
                    Outcome::Astray
                } else {
                    let c = candidates[nested.len() - 1];
                    match c.found {
                        None => ending(nested.last().len() == 0, Outcome::Done(made)),
                        Some(tree) => match expansion(
                            tree.items,
                            inner_context(ctx.modules.push(m.name), c, ctx.multi),
                            nested.last(),
                        ) {
                            Outcome::Done(items) => Outcome::Done(
                                made.push(
                                    ItemModel::Module(
                                        spliced(
                                            m,
                                            classify(m.attrs).rest,
                                            copy_guard(c.guard, ctx.multi),
                                            tree.attrs,
                                            items,
                                        ),
                                    ),
                                ),
                            ),
                            Outcome::Failed(e) => Outcome::Failed(e),
                            Outcome::Astray => Outcome::Astray,
                        },
                    }
                }
            },
            _ => Outcome::Astray,
        }
    }
}

/// Whether none of `items` is a module without a body.
pub open spec fn has_no_external(items: Seq<ItemModel>) -> bool {
    forall|i: int| 0 <= i < items.len() ==> !(#[trigger] items[i]).is_external_module()
}

} // verus!
