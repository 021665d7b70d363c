//! What holds of expansion for every tree and every behaviour of the resolver.
//!
//! The resolver's behaviour enters as the record of what it was asked and what
//! it said. A record that the rules cannot lead to replays as `Astray`; the
//! expansion itself never ends there.
use vstd::prelude::*;
use crate::attrs::{classify, OverrideModel};
use crate::error::ErrorCaseModel;
use crate::paths::{
    flat_file, holding_dirs, index_file, joined, joined_all, lead, located, parent_of, trimmed,
    without_last,
};
use crate::rules::{
    conventional_choice, conventional_guard, conventional_places, copies, copy_guard, expansion,
    failure, fetch_override, found_in, fresh_search, has_no_external, inner_context, is_fatal, plan,
    replay_guards, replay_item, replay_items, replay_overrides, residual_guard, spliced,
    step_override, Candidate, Context, Dialogue, FileExchange, GuardExchange, Outcome,
    OverrideExchange, Plan, Search, Verdict,
};
use crate::token::TokenModel;
use crate::tree::{ItemModel, ModuleModel, TreeModel};

verus! {

/// Items among which no module lacks a body come out as they are, as far as
/// the record reaches.
pub proof fn lemma_replay_without_external(
    items: Seq<ItemModel>,
    ctx: Context,
    script: Seq<Dialogue>,
)
    requires
        has_no_external(items),
    ensures
        replay_items(items, ctx, script) is Astray || (script.len() <= items.len() && replay_items(
            items,
            ctx,
            script,
        ) == Outcome::Done(items.take(script.len() as int))),
    decreases script.len(),
{
    if script.len() == 0 {
        assert(items.take(0) =~= Seq::<ItemModel>::empty());
    } else {
        lemma_replay_without_external(items, ctx, script.drop_last());
        let n = script.len() as int;
        if replay_items(items, ctx, script.drop_last()) is Done && n <= items.len() {
            let item = items[n - 1];
            assert(!item.is_external_module());
            if replay_item(item, ctx, script.last()) is Done {
                assert(replay_item(item, ctx, script.last()) == Outcome::Done(seq![item]));
                assert(items.take(n - 1) + seq![item] =~= items.take(n));
            }
        }
    }
}

/// Expansion changes nothing where no module lacks a body, whatever the
/// resolver would say.
pub proof fn law_nothing_to_expand(items: Seq<ItemModel>, ctx: Context, script: Seq<Dialogue>)
    requires
        has_no_external(items),
    ensures
        expansion(items, ctx, script) is Astray || expansion(items, ctx, script) == Outcome::Done(
            items,
        ),
{
    lemma_replay_without_external(items, ctx, script);
    if script.len() == items.len() {
        assert(items.take(items.len() as int) =~= items);
    }
}

/// Whether every module among `items`, at any depth, has a body.
pub open spec fn fully_inlined(items: Seq<ItemModel>) -> bool
    decreases items,
{
    forall|i: int|
        0 <= i < items.len() ==> match #[trigger] items[i] {
            ItemModel::Module(m) => match m.content {
                Some(inner) => fully_inlined(inner),
                None => false,
            },
            ItemModel::Other(_) => true,
        }
}

/// Idempotence: a tree in which every module has its body already is left as
/// it is by another expansion, in either mode and whatever the resolver would
/// say.
pub proof fn law_expansion_is_idempotent(
    items: Seq<ItemModel>,
    ctx: Context,
    script: Seq<Dialogue>,
)
    requires
        fully_inlined(items),
    ensures
        expansion(items, ctx, script) is Astray || expansion(items, ctx, script) == Outcome::Done(
            items,
        ),
{
    assert forall|i: int| 0 <= i < items.len() implies !(#[trigger] items[i]).is_external_module() by {
        match items[i] {
            ItemModel::Module(m) => {
                assert(m.content is Some);
            },
            ItemModel::Other(_) => {},
        }
    }
    law_nothing_to_expand(items, ctx, script);
}

/// Whether none of `items` is a module declaration.
pub open spec fn has_no_modules(items: Seq<ItemModel>) -> bool {
    forall|i: int| 0 <= i < items.len() ==> (#[trigger] items[i]) is Other
}

/// A tree without module declarations is returned unchanged.
pub proof fn law_no_modules_unchanged(items: Seq<ItemModel>, ctx: Context, script: Seq<Dialogue>)
    requires
        has_no_modules(items),
    ensures
        expansion(items, ctx, script) is Astray || expansion(items, ctx, script) == Outcome::Done(
            items,
        ),
{
    assert forall|i: int| 0 <= i < items.len() implies !(#[trigger] items[i]).is_external_module() by {
        assert(items[i] is Other);
    }
    law_nothing_to_expand(items, ctx, script);
}

/// Whether `said` records that each of the first guards of `guards` was asked
/// in its turn and holds.
pub open spec fn all_hold(guards: Seq<Seq<TokenModel>>, said: Seq<GuardExchange>) -> bool {
    &&& said.len() <= guards.len()
    &&& forall|i: int|
        0 <= i < said.len() ==> (#[trigger] said[i]) == (GuardExchange {
            asked: guards[i],
            answer: Ok(true),
        })
}

/// Guards that all hold let the declaration pass.
pub proof fn lemma_guards_pass(guards: Seq<Seq<TokenModel>>, said: Seq<GuardExchange>)
    requires
        all_hold(guards, said),
    ensures
        replay_guards(guards, said) == Verdict::Pass,
    decreases said.len(),
{
    if said.len() > 0 {
        let init = said.drop_last();
        assert forall|i: int| 0 <= i < init.len() implies (#[trigger] init[i]) == (GuardExchange {
            asked: guards[i],
            answer: Ok(true),
        }) by {
            assert(init[i] == said[i]);
        }
        lemma_guards_pass(guards, init);
        assert(said.last() == said[said.len() - 1]);
    }
}

/// Guard gating: a declaration with a guard of its own that does not hold is
/// absent from what comes out, and nothing is asked on its behalf: the guards
/// after that one are not evaluated, no override is looked at, no file is
/// asked for, and nothing beneath it is expanded. The guards before that one
/// hold.
pub proof fn law_false_guard_elides(m: ModuleModel, ctx: Context, d: Dialogue)
    requires
        m.is_external(),
        classify(m.attrs).error is None,
        0 < d.guards.len() <= classify(m.attrs).guards.len(),
        all_hold(classify(m.attrs).guards, d.guards.drop_last()),
        d.guards.last() == (GuardExchange {
            asked: classify(m.attrs).guards[d.guards.len() - 1],
            answer: Ok(false),
        }),
        !(replay_item(ItemModel::Module(m), ctx, d) is Astray),
    ensures
        replay_item(ItemModel::Module(m), ctx, d) == Outcome::Done(Seq::<ItemModel>::empty()),
        d.overrides.len() == 0,
        d.flat is None,
        d.index is None,
        d.nested.len() == 0,
{
    lemma_guards_pass(classify(m.attrs).guards, d.guards.drop_last());
}

/// A record in which a guard of the declaration does not hold, and which
/// holds nothing behind that guard, is one that the rules lead to.
pub proof fn lemma_false_guard_record(m: ModuleModel, ctx: Context, d: Dialogue)
    requires
        m.is_external(),
        classify(m.attrs).error is None,
        0 < d.guards.len() <= classify(m.attrs).guards.len(),
        all_hold(classify(m.attrs).guards, d.guards.drop_last()),
        d.guards.last() == (GuardExchange {
            asked: classify(m.attrs).guards[d.guards.len() - 1],
            answer: Ok(false),
        }),
        d.ends_after_guards(),
    ensures
        replay_item(ItemModel::Module(m), ctx, d) == Outcome::Done(Seq::<ItemModel>::empty()),
{
    lemma_guards_pass(classify(m.attrs).guards, d.guards.drop_last());
}

/// Whether `said` records that each of the first overrides of `overrides`
/// carries a guard, which was asked and does not hold, and that its file was
/// not asked for.
pub open spec fn none_applies(overrides: Seq<OverrideModel>, said: Seq<OverrideExchange>) -> bool {
    &&& said.len() <= overrides.len()
    &&& forall|i: int|
        0 <= i < said.len() ==> (#[trigger] overrides[i]).guard is Some && (#[trigger] said[i])
            == (OverrideExchange {
            guard: Some(GuardExchange { asked: overrides[i].guard->Some_0, answer: Ok(false) }),
            file: None,
        })
}

/// Overrides of which none applies leave the search where it began.
pub proof fn lemma_overrides_rejected(
    overrides: Seq<OverrideModel>,
    module: Seq<Seq<char>>,
    explicit: Seq<Seq<char>>,
    multi: bool,
    said: Seq<OverrideExchange>,
)
    requires
        none_applies(overrides, said),
    ensures
        replay_overrides(overrides, module, explicit, multi, said) == Outcome::Done(fresh_search()),
    decreases said.len(),
{
    if said.len() > 0 {
        let init = said.drop_last();
        assert forall|i: int| 0 <= i < init.len() implies (#[trigger] overrides[i]).guard is Some
            && (#[trigger] init[i]) == (OverrideExchange {
            guard: Some(GuardExchange { asked: overrides[i].guard->Some_0, answer: Ok(false) }),
            file: None,
        }) by {
            assert(init[i] == said[i]);
        }
        lemma_overrides_rejected(overrides, module, explicit, multi, init);
        let n = said.len() as int;
        assert(said.last() == said[n - 1]);
        assert(overrides[n - 1].guard is Some);
    }
}

/// Whether `exchange` records that the file at `path` was asked for on behalf
/// of `module` and is not there.
pub open spec fn reported_absent(
    exchange: Option<FileExchange>,
    module: Seq<Seq<char>>,
    path: Seq<char>,
) -> bool {
    exchange matches Some(x) && x.module == module && x.path == path && !is_fatal(x.answer)
        && found_in(x.answer) is None
}

/// Whether `exchange` records that the file at `path` was asked for on behalf
/// of `module` and was found.
pub open spec fn reported_present(
    exchange: Option<FileExchange>,
    module: Seq<Seq<char>>,
    path: Seq<char>,
) -> bool {
    exchange matches Some(x) && x.module == module && x.path == path && found_in(x.answer) is Some
}

/// A declaration whose guards hold, of whose overrides none applies, and for
/// which neither `name.rs` nor `name/mod.rs` is there, stays as it is, and
/// nothing fails.
pub proof fn law_unresolved_stays_external(m: ModuleModel, ctx: Context, d: Dialogue)
    requires
        m.is_external(),
        classify(m.attrs).error is None,
        all_hold(classify(m.attrs).guards, d.guards),
        d.guards.len() == classify(m.attrs).guards.len(),
        none_applies(classify(m.attrs).overrides, d.overrides),
        d.overrides.len() == classify(m.attrs).overrides.len(),
        reported_absent(d.flat, ctx.modules.push(m.name), located(ctx.natural, flat_file(m.name))),
        reported_absent(
            d.index,
            ctx.modules.push(m.name),
            joined(located(ctx.natural, m.name), index_file()),
        ),
        d.nested.len() == 1,
        d.nested[0].len() == 0,
    ensures
        replay_item(ItemModel::Module(m), ctx, d) == Outcome::Done(seq![ItemModel::Module(m)]),
{
    let sorted = classify(m.attrs);
    let module = ctx.modules.push(m.name);
    lemma_guards_pass(sorted.guards, d.guards);
    lemma_overrides_rejected(sorted.overrides, module, ctx.explicit, ctx.multi, d.overrides);
    assert(d.nested.drop_last() =~= Seq::<Seq<Dialogue>>::empty());
    assert(d.nested.last() == d.nested[0]);
    let places = conventional_places(m.name, module, ctx, fresh_search(), d.flat, d.index);
    assert(places is Done);
    assert(places->Done_0.len() == 1);
    assert(places->Done_0[0].found is None);
}

/// Whether `said` records no failure of the resolver.
pub open spec fn without_failure(said: Seq<OverrideExchange>) -> bool {
    forall|i: int|
        0 <= i < said.len() ==> {
            &&& ((#[trigger] said[i]).guard matches Some(g) ==> g.answer is Ok)
            &&& (said[i].file matches Some(f) ==> f.answer is Ok)
        }
}

/// Without copies, once an override without a guard has been taken, the
/// search cannot get past a second one.
pub proof fn lemma_second_override_fails(
    overrides: Seq<OverrideModel>,
    module: Seq<Seq<char>>,
    explicit: Seq<Seq<char>>,
    said: Seq<OverrideExchange>,
    i: int,
    j: int,
)
    requires
        0 <= i < j < overrides.len(),
        overrides[i].guard is None,
        overrides[j].guard is None,
        without_failure(said),
    ensures
        match replay_overrides(overrides, module, explicit, false, said) {
            Outcome::Astray => true,
            Outcome::Failed(e) => e == failure(
                module,
                ErrorCaseModel::MultipleExplicitPathsSpecifiedForOneModule,
            ),
            Outcome::Done(st) => said.len() <= j && (said.len() > i ==> st.candidates.len() > 0),
        },
    decreases said.len(),
{
    if said.len() > 0 {
        let init = said.drop_last();
        assert forall|k: int| 0 <= k < init.len() implies {
            &&& ((#[trigger] init[k]).guard matches Some(g) ==> g.answer is Ok)
            &&& (init[k].file matches Some(f) ==> f.answer is Ok)
        } by {
            assert(init[k] == said[k]);
        }
        lemma_second_override_fails(overrides, module, explicit, init, i, j);
        let n = said.len() as int;
        assert(said.last() == said[n - 1]);
        match replay_overrides(overrides, module, explicit, false, init) {
            Outcome::Done(st) => {
                if n <= overrides.len() {
                    let o = overrides[n - 1];
                    let next = step_override(o, module, explicit, false, st, said.last());
                    if n - 1 == j {
                        assert(st.candidates.len() > 0);
                    }
                }
            },
            _ => {},
        }
    }
}

/// The conflict of overrides: without copies, a declaration with two location
/// overrides that carry no guard always fails as having several explicit
/// places, provided its own guards hold and the resolver reports no failure
/// while the overrides are gone through.
pub proof fn law_two_overrides_conflict(m: ModuleModel, ctx: Context, d: Dialogue, i: int, j: int)
    requires
        m.is_external(),
        !ctx.multi,
        classify(m.attrs).error is None,
        0 <= i < j < classify(m.attrs).overrides.len(),
        classify(m.attrs).overrides[i].guard is None,
        classify(m.attrs).overrides[j].guard is None,
        all_hold(classify(m.attrs).guards, d.guards),
        d.guards.len() == classify(m.attrs).guards.len(),
        without_failure(d.overrides),
    ensures
        replay_item(ItemModel::Module(m), ctx, d) is Astray || replay_item(
            ItemModel::Module(m),
            ctx,
            d,
        ) == Outcome::<Seq<ItemModel>>::Failed(
            failure(
                ctx.modules.push(m.name),
                ErrorCaseModel::MultipleExplicitPathsSpecifiedForOneModule,
            ),
        ),
{
    let sorted = classify(m.attrs);
    lemma_guards_pass(sorted.guards, d.guards);
    lemma_second_override_fails(
        sorted.overrides,
        ctx.modules.push(m.name),
        ctx.explicit,
        d.overrides,
        i,
        j,
    );
}

/// Exclusivity of the conventional places: where both `name.rs` and
/// `name/mod.rs` are asked for and found, the expansion fails as ambiguous, in
/// either mode. They are asked for where the declaration's guards hold and
/// its overrides left the conventional places to be tried.
pub proof fn law_both_conventional_files_conflict(m: ModuleModel, ctx: Context, d: Dialogue)
    requires
        m.is_external(),
        classify(m.attrs).error is None,
        all_hold(classify(m.attrs).guards, d.guards),
        d.guards.len() == classify(m.attrs).guards.len(),
        d.overrides.len() == classify(m.attrs).overrides.len(),
        replay_overrides(
            classify(m.attrs).overrides,
            ctx.modules.push(m.name),
            ctx.explicit,
            ctx.multi,
            d.overrides,
        ) matches Outcome::Done(st) && st.conventional,
        reported_present(d.flat, ctx.modules.push(m.name), located(ctx.natural, flat_file(m.name))),
        reported_present(
            d.index,
            ctx.modules.push(m.name),
            joined(located(ctx.natural, m.name), index_file()),
        ),
        d.nested.len() == 0,
    ensures
        replay_item(ItemModel::Module(m), ctx, d) == Outcome::<Seq<ItemModel>>::Failed(
            failure(ctx.modules.push(m.name), ErrorCaseModel::BothModRsAndNameRsPresent),
        ),
{
    lemma_guards_pass(classify(m.attrs).guards, d.guards);
}

/// In `dir/name`, where `name` holds no `/`, taking off the last component
/// leaves `dir`.
pub proof fn lemma_without_last_of_joined(dir: Seq<char>, name: Seq<char>, b: int)
    requires
        b <= dir.len(),
        forall|i: int| 0 <= i < name.len() ==> name[i] != '/',
    ensures
        without_last(dir + seq!['/'] + name, b) == dir,
    decreases name.len(),
{
    let path = dir + seq!['/'] + name;
    if name.len() == 0 {
        assert(path.last() == '/');
        assert(path.drop_last() =~= dir);
    } else {
        let shorter = name.drop_last();
        assert(path.last() == name.last());
        assert(path.drop_last() =~= dir + seq!['/'] + shorter);
        lemma_without_last_of_joined(dir, shorter, b);
    }
}

/// The directory that holds a file is the one that its name was joined onto:
/// for a directory that is not empty and ends neither in `/` nor in a `.`
/// component, and the name of a file, which holds no `/` and is not `.`.
pub proof fn lemma_parent_of_joined(dir: Seq<char>, name: Seq<char>)
    requires
        dir.len() > 0,
        dir.last() != '/',
        trimmed(dir, lead(dir)) == dir,
        name.len() > 0,
        forall|i: int| 0 <= i < name.len() ==> name[i] != '/',
        name != seq!['.'],
    ensures
        joined(dir, name) == dir + seq!['/'] + name,
        parent_of(joined(dir, name)) == Some(dir),
{
    let path = dir + seq!['/'] + name;
    assert(joined(dir, name) == path);
    let b = lead(path);
    assert(path[0] == dir[0]);
    if dir.len() >= 2 {
        assert(path[1] == dir[1]);
    } else {
        assert(path[1] == '/');
    }
    assert(b == lead(dir));
    assert(path.last() == name.last());
    if name.len() >= 2 {
        assert(path[path.len() - 2] == name[name.len() - 2]);
    } else {
        assert(name =~= seq![name[0]]);
    }
    assert(trimmed(path, b) == path);
    lemma_without_last_of_joined(dir, name, b);
}

/// Directory rebasing: a module placed by an override at `dir/file` has its
/// children looked for in `dir`, by their names and by their own overrides
/// alike, wherever the module would have been by its name. The child `child`
/// is asked for as `dir/child.rs` and `dir/child/mod.rs`.
pub proof fn law_override_rebases_children(
    o: OverrideModel,
    module: Seq<Seq<char>>,
    explicit: Seq<Seq<char>>,
    multi: bool,
    st: Search,
    file: Option<FileExchange>,
    dir: Seq<char>,
    name: Seq<char>,
    child: Seq<char>,
)
    requires
        fetch_override(o, module, explicit, multi, st, file) is Done,
        located(explicit, o.path) == joined(dir, name),
        dir.len() > 0,
        dir.last() != '/',
        trimmed(dir, lead(dir)) == dir,
        name.len() > 0,
        forall|i: int| 0 <= i < name.len() ==> name[i] != '/',
        name != seq!['.'],
        child.len() > 0,
        forall|i: int| 0 <= i < child.len() ==> child[i] != '/',
    ensures
        ({
            let place = fetch_override(o, module, explicit, multi, st, file)->Done_0.candidates.last();
            &&& place.natural == seq![dir]
            &&& place.explicit == seq![dir]
            &&& located(place.natural, flat_file(child)) == dir + seq!['/'] + flat_file(child)
            &&& joined(located(place.natural, child), index_file()) == dir + seq!['/'] + child
                + seq!['/'] + index_file()
        }),
{
    lemma_parent_of_joined(dir, name);
    lemma_located_in_one(dir, flat_file(child));
    lemma_located_in_one(dir, child);
    assert(flat_file(child)[0] == child[0]);
    let found = fetch_override(o, module, explicit, multi, st, file)->Done_0;
    assert(found.candidates.last().natural == holding_dirs(located(explicit, o.path)));
    let below = dir + seq!['/'] + child;
    assert(below.last() == child.last());
    assert(index_file()[0] == 'm');
    assert(joined(below, index_file()) == below + seq!['/'] + index_file());
}

/// What is asked for below one directory that is not empty and does not end
/// in `/` is that directory, a `/` and the leaf, for a leaf that does not begin
/// with `/`.
pub proof fn lemma_located_in_one(dir: Seq<char>, leaf: Seq<char>)
    requires
        dir.len() > 0,
        dir.last() != '/',
        leaf.len() > 0,
        leaf[0] != '/',
    ensures
        located(seq![dir], leaf) == dir + seq!['/'] + leaf,
{
    let dirs = seq![dir];
    assert(dirs.drop_last() =~= Seq::<Seq<char>>::empty());
    assert(joined_all(dirs.drop_last()) =~= Seq::<char>::empty());
    assert(joined_all(dirs) == joined(Seq::<char>::empty(), dir));
    assert(joined_all(dirs) =~= dir);
}

/// The items among `items` that are no module declarations, in order.
pub open spec fn plain_items(items: Seq<ItemModel>) -> Seq<ItemModel>
    decreases items.len(),
{
    if items.len() == 0 {
        Seq::empty()
    } else if items.last() is Other {
        plain_items(items.drop_last()).push(items.last())
    } else {
        plain_items(items.drop_last())
    }
}

/// The plain items of two runs of items are those of the first, then those of
/// the second.
pub proof fn lemma_plain_items_add(a: Seq<ItemModel>, b: Seq<ItemModel>)
    ensures
        plain_items(a + b) == plain_items(a) + plain_items(b),
    decreases b.len(),
{
    if b.len() == 0 {
        assert(a + b =~= a);
        assert(plain_items(a) + plain_items(b) =~= plain_items(a));
    } else {
        assert((a + b).drop_last() =~= a + b.drop_last());
        assert((a + b).last() == b.last());
        lemma_plain_items_add(a, b.drop_last());
        if b.last() is Other {
            assert(plain_items(a + b) =~= plain_items(a) + plain_items(b));
        }
    }
}

/// The copies of a module are modules.
pub proof fn lemma_copies_are_modules(
    m: ModuleModel,
    ctx: Context,
    candidates: Seq<Candidate>,
    nested: Seq<Seq<Dialogue>>,
)
    ensures
        copies(m, ctx, candidates, nested) matches Outcome::Done(made) ==> made.len()
            <= nested.len() && plain_items(made) == Seq::<ItemModel>::empty(),
    decreases nested.len(),
{
    if nested.len() > 0 {
        lemma_copies_are_modules(m, ctx, candidates, nested.drop_last());
        match copies(m, ctx, candidates, nested) {
            Outcome::Done(made) => {
                let before = copies(m, ctx, candidates, nested.drop_last())->Done_0;
                if candidates[nested.len() - 1].found is Some {
                    assert(made.drop_last() =~= before);
                }
            },
            _ => {},
        }
    }
}

/// What comes out for one item holds the same plain items as the item.
pub proof fn lemma_item_keeps_plain_items(item: ItemModel, ctx: Context, d: Dialogue)
    ensures
        replay_item(item, ctx, d) matches Outcome::Done(out) ==> plain_items(out) == plain_items(
            seq![item],
        ),
{
    let single = seq![item];
    assert(single.drop_last() =~= Seq::<ItemModel>::empty());
    assert(single.last() == item);
    assert(plain_items(single.drop_last()) == Seq::<ItemModel>::empty());
    match item {
        ItemModel::Other(_) => {
            if replay_item(item, ctx, d) is Done {
                assert(replay_item(item, ctx, d)->Done_0 =~= single);
            }
        },
        ItemModel::Module(m) => {
            assert(plain_items(single) == Seq::<ItemModel>::empty());
            if m.content is Some && replay_item(item, ctx, d) is Done {
                assert(replay_item(item, ctx, d)->Done_0 =~= single);
            }
            if m.content is None {
                match plan(m, ctx, d) {
                    Outcome::Done(Plan::Candidates(candidates)) => {
                        lemma_copies_are_modules(m, ctx, candidates, d.nested);
                    },
                    _ => {},
                }
            }
        },
    }
}

/// Items that are no modules are neither dropped nor reordered nor changed, in
/// either mode: they are the same before and after an expansion.
pub proof fn law_plain_items_are_kept(items: Seq<ItemModel>, ctx: Context, script: Seq<Dialogue>)
    ensures
        replay_items(items, ctx, script) matches Outcome::Done(out) ==> plain_items(out)
            == plain_items(items.take(script.len() as int)),
        expansion(items, ctx, script) matches Outcome::Done(out) ==> plain_items(out)
            == plain_items(items),
    decreases script.len(),
{
    if script.len() == 0 {
        assert(items.take(0) =~= Seq::<ItemModel>::empty());
    } else {
        law_plain_items_are_kept(items, ctx, script.drop_last());
        let n = script.len() as int;
        match replay_items(items, ctx, script) {
            Outcome::Done(out) => {
                let before = replay_items(items, ctx, script.drop_last())->Done_0;
                let item = items[n - 1];
                let more = replay_item(item, ctx, script.last())->Done_0;
                lemma_item_keeps_plain_items(item, ctx, script.last());
                lemma_plain_items_add(before, more);
                lemma_plain_items_add(items.take(n - 1), seq![item]);
                assert(items.take(n - 1) + seq![item] =~= items.take(n));
            },
            _ => {},
        }
    }
    if script.len() == items.len() {
        assert(items.take(items.len() as int) =~= items);
    }
}

/// Without copies, the overrides leave at most one place, and if they leave
/// one, the places that follow from the name are not tried.
pub proof fn lemma_single_search(
    overrides: Seq<OverrideModel>,
    module: Seq<Seq<char>>,
    explicit: Seq<Seq<char>>,
    said: Seq<OverrideExchange>,
)
    ensures
        replay_overrides(overrides, module, explicit, false, said) matches Outcome::Done(st) ==> (
        st.candidates.len() == 0 && st.conventional) || (st.candidates.len() == 1
            && !st.conventional),
    decreases said.len(),
{
    if said.len() > 0 {
        lemma_single_search(overrides, module, explicit, said.drop_last());
    }
}

/// Without copies, exactly one place is tried for a module whose guards hold,
/// and the module comes out at most once.
pub proof fn law_single_mode_one_place(m: ModuleModel, ctx: Context, d: Dialogue)
    requires
        m.is_external(),
        !ctx.multi,
    ensures
        plan(m, ctx, d) matches Outcome::Done(Plan::Candidates(candidates)) ==> candidates.len()
            == 1,
        replay_item(ItemModel::Module(m), ctx, d) matches Outcome::Done(out) ==> out.len() <= 1,
{
    let sorted = classify(m.attrs);
    lemma_single_search(sorted.overrides, ctx.modules.push(m.name), ctx.explicit, d.overrides);
    match plan(m, ctx, d) {
        Outcome::Done(Plan::Candidates(candidates)) => {
            lemma_copies_are_modules(m, ctx, candidates, d.nested);
        },
        _ => {},
    }
}

/// Whether `said` records no request for a file that found one.
pub open spec fn nothing_found(said: Seq<OverrideExchange>) -> bool {
    forall|i: int|
        0 <= i < said.len() ==> ((#[trigger] said[i]).file matches Some(f) ==> found_in(f.answer)
            is None)
}

/// Whether none of `places` holds a file.
pub open spec fn all_absent(places: Seq<Candidate>) -> bool {
    forall|i: int| 0 <= i < places.len() ==> (#[trigger] places[i]).found is None
}

/// Overrides whose files are all absent leave only places without a file.
pub proof fn lemma_absent_search(
    overrides: Seq<OverrideModel>,
    module: Seq<Seq<char>>,
    explicit: Seq<Seq<char>>,
    multi: bool,
    said: Seq<OverrideExchange>,
)
    requires
        nothing_found(said),
    ensures
        replay_overrides(overrides, module, explicit, multi, said) matches Outcome::Done(st)
            ==> all_absent(st.candidates),
    decreases said.len(),
{
    if said.len() > 0 {
        let init = said.drop_last();
        assert forall|i: int| 0 <= i < init.len() implies ((#[trigger] init[i]).file matches Some(f)
            ==> found_in(f.answer) is None) by {
            assert(init[i] == said[i]);
        }
        lemma_absent_search(overrides, module, explicit, multi, init);
        assert(said.last() == said[said.len() - 1]);
    }
}

/// Places without a file give no copy, and nothing is expanded for them.
pub proof fn lemma_no_copies(
    m: ModuleModel,
    ctx: Context,
    candidates: Seq<Candidate>,
    nested: Seq<Seq<Dialogue>>,
)
    requires
        all_absent(candidates),
        nested.len() <= candidates.len(),
        forall|i: int| 0 <= i < nested.len() ==> (#[trigger] nested[i]).len() == 0,
    ensures
        copies(m, ctx, candidates, nested) == Outcome::Done(Seq::<ItemModel>::empty()),
    decreases nested.len(),
{
    if nested.len() > 0 {
        let init = nested.drop_last();
        assert forall|i: int| 0 <= i < init.len() implies (#[trigger] init[i]).len() == 0 by {
            assert(init[i] == nested[i]);
        }
        lemma_no_copies(m, ctx, candidates, init);
        assert(candidates[nested.len() - 1].found is None);
        assert(nested.last() == nested[nested.len() - 1]);
    }
}

/// A declaration for which no file is found stays as it is, and nothing
/// fails: its guards hold, its overrides are gone through without a failure,
/// whether one of them applies or none, and every file asked for, at the place
/// of an override or at the places that follow from the name, is absent.
pub proof fn law_nothing_found_stays_external(m: ModuleModel, ctx: Context, d: Dialogue)
    requires
        m.is_external(),
        classify(m.attrs).error is None,
        all_hold(classify(m.attrs).guards, d.guards),
        d.guards.len() == classify(m.attrs).guards.len(),
        d.overrides.len() == classify(m.attrs).overrides.len(),
        replay_overrides(
            classify(m.attrs).overrides,
            ctx.modules.push(m.name),
            ctx.explicit,
            ctx.multi,
            d.overrides,
        ) matches Outcome::Done(st) && d.nested.len() == st.candidates.len() + (if st.conventional {
            1int
        } else {
            0int
        }) && (st.conventional ==> reported_absent(
            d.flat,
            ctx.modules.push(m.name),
            located(ctx.natural, flat_file(m.name)),
        ) && reported_absent(
            d.index,
            ctx.modules.push(m.name),
            joined(located(ctx.natural, m.name), index_file()),
        )) && (!st.conventional ==> d.flat is None && d.index is None),
        nothing_found(d.overrides),
        forall|i: int| 0 <= i < d.nested.len() ==> (#[trigger] d.nested[i]).len() == 0,
    ensures
        replay_item(ItemModel::Module(m), ctx, d) == Outcome::Done(seq![ItemModel::Module(m)]),
{
    let sorted = classify(m.attrs);
    let module = ctx.modules.push(m.name);
    lemma_guards_pass(sorted.guards, d.guards);
    lemma_absent_search(sorted.overrides, module, ctx.explicit, ctx.multi, d.overrides);
    let st = replay_overrides(sorted.overrides, module, ctx.explicit, ctx.multi, d.overrides)->Done_0;
    let places = conventional_places(m.name, module, ctx, st, d.flat, d.index);
    assert(places is Done);
    let candidates = places->Done_0;
    assert(all_absent(candidates)) by {
        assert forall|i: int| 0 <= i < candidates.len() implies (#[trigger] candidates[i]).found
            is None by {
            if i < st.candidates.len() {
                assert(candidates[i] == st.candidates[i]);
            }
        }
    }
    lemma_no_copies(m, ctx, candidates, d.nested);
}

/// Guards that are not there are not asked.
pub proof fn lemma_no_guards(said: Seq<GuardExchange>)
    ensures
        replay_guards(Seq::empty(), said) == (if said.len() == 0 {
            Verdict::Pass
        } else {
            Verdict::Astray
        }),
    decreases said.len(),
{
    if said.len() > 0 {
        lemma_no_guards(said.drop_last());
    }
}

/// Overrides that are not there are not gone through.
pub proof fn lemma_no_overrides(
    module: Seq<Seq<char>>,
    explicit: Seq<Seq<char>>,
    multi: bool,
    said: Seq<OverrideExchange>,
)
    ensures
        replay_overrides(Seq::empty(), module, explicit, multi, said) == (if said.len() == 0 {
            Outcome::Done(fresh_search())
        } else {
            Outcome::Astray
        }),
    decreases said.len(),
{
    if said.len() > 0 {
        lemma_no_overrides(module, explicit, multi, said.drop_last());
    }
}

/// A declaration without attributes is asked for by its name, below the
/// `natural` directories of where expansion stands: first as `name.rs`, then,
/// unless that request fails for good, as `name/mod.rs`, both on behalf of the
/// module itself. No record of its expansion holds other requests for it.
pub proof fn law_plain_declaration_is_asked_for_by_name(m: ModuleModel, ctx: Context, d: Dialogue)
    requires
        m.is_external(),
        m.attrs.len() == 0,
        !(replay_item(ItemModel::Module(m), ctx, d) is Astray),
    ensures
        d.guards.len() == 0,
        d.overrides.len() == 0,
        d.flat matches Some(f) && f.module == ctx.modules.push(m.name) && f.path == located(
            ctx.natural,
            flat_file(m.name),
        ) && (!is_fatal(f.answer) ==> (d.index matches Some(x) && x.module == ctx.modules.push(
            m.name,
        ) && x.path == joined(located(ctx.natural, m.name), index_file()))),
{
    let module = ctx.modules.push(m.name);
    assert(classify(m.attrs).error is None);
    assert(classify(m.attrs).guards =~= Seq::<Seq<TokenModel>>::empty());
    assert(classify(m.attrs).overrides =~= Seq::<OverrideModel>::empty());
    lemma_no_guards(d.guards);
    lemma_no_overrides(module, ctx.explicit, ctx.multi, d.overrides);
}

/// Directory rebasing, for the requests of one expansion: a module placed by
/// an override at `dir/file` has a child that is declared without attributes
/// asked for as `dir/child.rs` and, unless that request fails for good, as
/// `dir/child/mod.rs`, and as nothing else.
pub proof fn law_children_of_an_override_are_asked_for_beside_it(
    o: OverrideModel,
    module: Seq<Seq<char>>,
    explicit: Seq<Seq<char>>,
    multi: bool,
    st: Search,
    file: Option<FileExchange>,
    dir: Seq<char>,
    name: Seq<char>,
    child: ModuleModel,
    d: Dialogue,
)
    requires
        fetch_override(o, module, explicit, multi, st, file) is Done,
        located(explicit, o.path) == joined(dir, name),
        dir.len() > 0,
        dir.last() != '/',
        trimmed(dir, lead(dir)) == dir,
        name.len() > 0,
        forall|i: int| 0 <= i < name.len() ==> name[i] != '/',
        name != seq!['.'],
        child.is_external(),
        child.attrs.len() == 0,
        child.name.len() > 0,
        forall|i: int| 0 <= i < child.name.len() ==> child.name[i] != '/',
        !(replay_item(
            ItemModel::Module(child),
            inner_context(
                module,
                fetch_override(o, module, explicit, multi, st, file)->Done_0.candidates.last(),
                multi,
            ),
            d,
        ) is Astray),
    ensures
        d.flat matches Some(f) && f.module == module.push(child.name) && f.path == dir
            + seq!['/'] + flat_file(child.name) && (!is_fatal(f.answer) ==> (d.index matches Some(
            x,
        ) && x.module == module.push(child.name) && x.path == dir + seq!['/'] + child.name
            + seq!['/'] + index_file())),
{
    let place = fetch_override(o, module, explicit, multi, st, file)->Done_0.candidates.last();
    law_override_rebases_children(o, module, explicit, multi, st, file, dir, name, child.name);
    law_plain_declaration_is_asked_for_by_name(child, inner_context(module, place, multi), d);
}

/// The place that an override which applies puts a module at, with what was
/// found there.
pub open spec fn taken_place(
    o: OverrideModel,
    explicit: Seq<Seq<char>>,
    found: Option<TreeModel>,
) -> Candidate {
    Candidate {
        found,
        natural: holding_dirs(located(explicit, o.path)),
        explicit: holding_dirs(located(explicit, o.path)),
        guard: o.guard,
    }
}

/// Whether `said` records that each of the first overrides of `overrides`
/// carries a guard that was asked and holds, and that its file was asked for
/// at its place and came back as `files` tells.
pub open spec fn all_taken(
    overrides: Seq<OverrideModel>,
    module: Seq<Seq<char>>,
    explicit: Seq<Seq<char>>,
    said: Seq<OverrideExchange>,
    files: Seq<Option<TreeModel>>,
) -> bool {
    &&& said.len() <= overrides.len()
    &&& files.len() == said.len()
    &&& forall|i: int|
        0 <= i < said.len() ==> {
            &&& (#[trigger] overrides[i]).guard is Some
            &&& (#[trigger] said[i]).guard == Some(
                GuardExchange { asked: overrides[i].guard->Some_0, answer: Ok(true) },
            )
            &&& said[i].file == Some(
                FileExchange {
                    module,
                    path: located(explicit, overrides[i].path),
                    answer: Ok(files[i]),
                },
            )
        }
}

/// The search after `n` overrides that all apply.
pub open spec fn search_of_taken(
    overrides: Seq<OverrideModel>,
    explicit: Seq<Seq<char>>,
    files: Seq<Option<TreeModel>>,
    n: int,
) -> Search {
    Search {
        candidates: Seq::new(n as nat, |i: int| taken_place(overrides[i], explicit, files[i])),
        accepted: Seq::new(n as nat, |i: int| overrides[i].guard->Some_0),
        conventional: true,
    }
}

/// Where copies are allowed, every override whose guard holds is tried, in
/// order, and the places that follow from the name are still to be tried.
pub proof fn lemma_all_overrides_taken(
    overrides: Seq<OverrideModel>,
    module: Seq<Seq<char>>,
    explicit: Seq<Seq<char>>,
    said: Seq<OverrideExchange>,
    files: Seq<Option<TreeModel>>,
)
    requires
        all_taken(overrides, module, explicit, said, files),
    ensures
        replay_overrides(overrides, module, explicit, true, said) == Outcome::Done(
            search_of_taken(overrides, explicit, files, said.len() as int),
        ),
    decreases said.len(),
{
    let n = said.len() as int;
    if n == 0 {
        assert(search_of_taken(overrides, explicit, files, 0).candidates =~= Seq::<
            Candidate,
        >::empty());
        assert(search_of_taken(overrides, explicit, files, 0).accepted =~= Seq::<
            Seq<TokenModel>,
        >::empty());
    } else {
        let init = said.drop_last();
        let fewer = files.drop_last();
        assert forall|i: int| 0 <= i < init.len() implies {
            &&& (#[trigger] overrides[i]).guard is Some
            &&& (#[trigger] init[i]).guard == Some(
                GuardExchange { asked: overrides[i].guard->Some_0, answer: Ok(true) },
            )
            &&& init[i].file == Some(
                FileExchange {
                    module,
                    path: located(explicit, overrides[i].path),
                    answer: Ok(fewer[i]),
                },
            )
        } by {
            assert(init[i] == said[i]);
            assert(fewer[i] == files[i]);
        }
        lemma_all_overrides_taken(overrides, module, explicit, init, fewer);
        let before = search_of_taken(overrides, explicit, fewer, n - 1);
        let after = search_of_taken(overrides, explicit, files, n);
        assert(said.last() == said[n - 1]);
        assert(overrides[n - 1].guard is Some);
        assert(before.candidates.push(taken_place(overrides[n - 1], explicit, files[n - 1]))
            =~= after.candidates);
        assert(before.accepted.push(overrides[n - 1].guard->Some_0) =~= after.accepted);
    }
}

/// The copy of the declaration `m` for the place `c`, where the items of the
/// file found there expand to `body`.
pub open spec fn copy_for(
    m: ModuleModel,
    ctx: Context,
    c: Candidate,
    body: Seq<ItemModel>,
) -> ItemModel {
    ItemModel::Module(
        spliced(
            m,
            classify(m.attrs).rest,
            copy_guard(c.guard, ctx.multi),
            c.found->Some_0.attrs,
            body,
        ),
    )
}

/// Whether the items of the file found at each of the first `n` places expand
/// to the body that `bodies` holds for it, as `nested` records.
pub open spec fn bodies_expand(
    m: ModuleModel,
    ctx: Context,
    candidates: Seq<Candidate>,
    nested: Seq<Seq<Dialogue>>,
    bodies: Seq<Seq<ItemModel>>,
    n: int,
) -> bool {
    &&& n <= candidates.len()
    &&& n <= nested.len()
    &&& n <= bodies.len()
    &&& forall|i: int|
        0 <= i < n ==> (#[trigger] candidates[i]).found is Some && expansion(
            candidates[i].found->Some_0.items,
            inner_context(ctx.modules.push(m.name), candidates[i], ctx.multi),
            nested[i],
        ) == Outcome::Done(bodies[i])
}

/// Places that all hold a file give one copy each, in order.
pub proof fn lemma_one_copy_for_each_place(
    m: ModuleModel,
    ctx: Context,
    candidates: Seq<Candidate>,
    nested: Seq<Seq<Dialogue>>,
    bodies: Seq<Seq<ItemModel>>,
)
    requires
        bodies_expand(m, ctx, candidates, nested, bodies, nested.len() as int),
    ensures
        copies(m, ctx, candidates, nested) == Outcome::Done(
            Seq::new(nested.len(), |i: int| copy_for(m, ctx, candidates[i], bodies[i])),
        ),
    decreases nested.len(),
{
    let n = nested.len() as int;
    if n == 0 {
        assert(Seq::new(0, |i: int| copy_for(m, ctx, candidates[i], bodies[i])) =~= Seq::<
            ItemModel,
        >::empty());
    } else {
        let init = nested.drop_last();
        assert forall|i: int| 0 <= i < n - 1 implies (#[trigger] candidates[i]).found is Some
            && expansion(
            candidates[i].found->Some_0.items,
            inner_context(ctx.modules.push(m.name), candidates[i], ctx.multi),
            init[i],
        ) == Outcome::Done(bodies[i]) by {
            assert(init[i] == nested[i]);
        }
        lemma_one_copy_for_each_place(m, ctx, candidates, init, bodies);
        assert(nested.last() == nested[n - 1]);
        assert(candidates[n - 1].found is Some);
        let made = Seq::new((n - 1) as nat, |i: int| copy_for(m, ctx, candidates[i], bodies[i]));
        assert(made.push(copy_for(m, ctx, candidates[n - 1], bodies[n - 1])) =~= Seq::new(
            n as nat,
            |i: int| copy_for(m, ctx, candidates[i], bodies[i]),
        ));
    }
}

/// The copies of a module where copies are allowed. The declaration's guards
/// hold. It has `k` overrides, at least one, and each carries a guard that
/// holds and has its file found. Of `name.rs` and `name/mod.rs` at most one is
/// there. Then the module comes out `k` times, in the order of the overrides,
/// each copy under the guard of its override and with the expanded items of
/// the override's file; and, if one of the two conventional files is there,
/// once more, under the guard that holds where none of the overrides' guards
/// does, with the expanded items of that file. Nothing else comes out for it.
pub proof fn law_one_copy_for_each_accepted_override(
    m: ModuleModel,
    ctx: Context,
    d: Dialogue,
    files: Seq<Option<TreeModel>>,
    bodies: Seq<Seq<ItemModel>>,
)
    requires
        m.is_external(),
        ctx.multi,
        classify(m.attrs).error is None,
        all_hold(classify(m.attrs).guards, d.guards),
        d.guards.len() == classify(m.attrs).guards.len(),
        classify(m.attrs).overrides.len() >= 1,
        d.overrides.len() == classify(m.attrs).overrides.len(),
        all_taken(
            classify(m.attrs).overrides,
            ctx.modules.push(m.name),
            ctx.explicit,
            d.overrides,
            files,
        ),
        d.flat matches Some(f) && f.module == ctx.modules.push(m.name) && f.path == located(
            ctx.natural,
            flat_file(m.name),
        ) && !is_fatal(f.answer),
        d.index matches Some(x) && x.module == ctx.modules.push(m.name) && x.path == joined(
            located(ctx.natural, m.name),
            index_file(),
        ) && !is_fatal(x.answer),
        !(found_in(d.flat->Some_0.answer) is Some && found_in(d.index->Some_0.answer) is Some),
        d.nested.len() == d.overrides.len() + 1,
        bodies.len() == d.nested.len(),
        bodies_expand(
            m,
            ctx,
            search_of_taken(
                classify(m.attrs).overrides,
                ctx.explicit,
                files,
                d.overrides.len() as int,
            ).candidates,
            d.nested,
            bodies,
            d.overrides.len() as int,
        ),
        ({
            let st = search_of_taken(
                classify(m.attrs).overrides,
                ctx.explicit,
                files,
                d.overrides.len() as int,
            );
            let last = conventional_choice(
                found_in(d.flat->Some_0.answer),
                found_in(d.index->Some_0.answer),
                m.name,
                ctx.modules.push(m.name),
                ctx.natural,
                ctx.explicit,
                Some(residual_guard(st.accepted)),
            )->Ok_0;
            match last.found {
                Some(tree) => expansion(
                    tree.items,
                    inner_context(ctx.modules.push(m.name), last, true),
                    d.nested.last(),
                ) == Outcome::Done(bodies.last()),
                None => d.nested.last().len() == 0,
            }
        }),
    ensures
        ({
            let k = d.overrides.len() as int;
            let st = search_of_taken(classify(m.attrs).overrides, ctx.explicit, files, k);
            let last = conventional_choice(
                found_in(d.flat->Some_0.answer),
                found_in(d.index->Some_0.answer),
                m.name,
                ctx.modules.push(m.name),
                ctx.natural,
                ctx.explicit,
                Some(residual_guard(st.accepted)),
            )->Ok_0;
            let first = Seq::new(k as nat, |i: int| copy_for(m, ctx, st.candidates[i], bodies[i]));
            &&& forall|i: int| 0 <= i < k ==> (#[trigger] st.candidates[i]).guard == classify(
                m.attrs,
            ).overrides[i].guard
            &&& last.guard == Some(residual_guard(st.accepted))
            &&& replay_item(ItemModel::Module(m), ctx, d) == Outcome::Done(
                if last.found is Some {
                    first.push(copy_for(m, ctx, last, bodies[k]))
                } else {
                    first
                },
            )
        }),
{
    let sorted = classify(m.attrs);
    let module = ctx.modules.push(m.name);
    let k = d.overrides.len() as int;
    lemma_guards_pass(sorted.guards, d.guards);
    lemma_all_overrides_taken(sorted.overrides, module, ctx.explicit, d.overrides, files);
    let st = search_of_taken(sorted.overrides, ctx.explicit, files, k);
    assert(conventional_guard(ctx.multi, st.accepted) == Some(residual_guard(st.accepted)));
    let chosen = conventional_choice(
        found_in(d.flat->Some_0.answer),
        found_in(d.index->Some_0.answer),
        m.name,
        module,
        ctx.natural,
        ctx.explicit,
        Some(residual_guard(st.accepted)),
    );
    assert(chosen is Ok);
    let last = chosen->Ok_0;
    let places = conventional_places(m.name, module, ctx, st, d.flat, d.index);
    assert(places == Outcome::Done(st.candidates.push(last)));
    let candidates = st.candidates.push(last);
    assert(plan(m, ctx, d) == Outcome::Done(Plan::Candidates(candidates)));
    let init = d.nested.drop_last();
    assert forall|i: int| 0 <= i < k implies (#[trigger] candidates[i]).found is Some && expansion(
        candidates[i].found->Some_0.items,
        inner_context(module, candidates[i], ctx.multi),
        init[i],
    ) == Outcome::Done(bodies[i]) by {
        assert(candidates[i] == st.candidates[i]);
        assert(init[i] == d.nested[i]);
    }
    lemma_one_copy_for_each_place(m, ctx, candidates, init, bodies);
    let first = Seq::new(k as nat, |i: int| copy_for(m, ctx, st.candidates[i], bodies[i]));
    assert(Seq::new(k as nat, |i: int| copy_for(m, ctx, candidates[i], bodies[i])) =~= first);
    assert(copies(m, ctx, candidates, init) == Outcome::Done(first));
    assert(candidates[k] == last);
    assert(first.len() == k);
}

} // verus!
