//! Expansion of `mod name;` declarations into inline modules.
//!
//! A tree holds the items of a source file. [`expand_modules_into_inline_modules`]
//! replaces each module that is declared without a body by the module with the
//! items of its file, which a [`Resolver`] finds for it, and does the same to
//! the modules declared in that file.
use vstd::prelude::*;

pub mod attrs;
pub mod cfgname;
pub mod error;
pub mod expand_impl;
pub mod laws;
pub mod literal;
pub mod paths;
pub mod resolver;
pub mod rules;
pub mod stack;
pub mod text;
pub mod token;
pub mod tree;

pub use crate::error::{AttrParseError, Error, ErrorCase, UserError};
pub use crate::literal::LiteralValue;
pub use crate::resolver::{Resolver, ResolverHelper};
pub use crate::token::{Delimiter, Token};
pub use crate::tree::{AttrStyle, Attribute, Item, Module, Tree};

use crate::error::ErrorModel;
use crate::expand_impl::expand_impl;
use crate::laws::{law_nothing_to_expand, law_plain_items_are_kept, plain_items};
use crate::rules::{expansion, has_no_external, root_context, Dialogue, Outcome};
use crate::stack::{clone_stack, empty_stack};
use crate::tree::TreeModel;

verus! {

/// All that the resolver said during one expansion: whether modules may come
/// out in several copies, and one dialogue for each item of the root.
pub struct Session {
    pub multi: bool,
    pub dialogues: Seq<Dialogue>,
}

/// Whether the tree `after` and the result `result` are what the rules give
/// for the tree `before` when the resolver answers as `s` records. A failure
/// leaves the tree as it was.
pub open spec fn accounts_for(
    s: Session,
    before: TreeModel,
    after: TreeModel,
    result: Result<(), ErrorModel>,
) -> bool {
    match expansion(before.items, root_context(s.multi), s.dialogues) {
        Outcome::Done(items) => result is Ok && after == (TreeModel {
            attrs: before.attrs,
            items,
        }),
        Outcome::Failed(e) => result == Err::<(), ErrorModel>(e) && after == before,
        Outcome::Astray => false,
    }
}

/// The value of the result of an expansion.
pub open spec fn result_model(r: Result<(), Error>) -> Result<(), ErrorModel> {
    match r {
        Ok(_) => Ok(()),
        Err(e) => Err(e@),
    }
}

/// Replaces every `mod name;` in `content` by `mod name { .. }` with the items
/// of the module's file, and does the same within those items, in the mode
/// given: with `multi` a module comes out once for each place that applies,
/// without it a second place that applies is a failure. The files come from
/// `resolver`, which also judges the guards on the way; it is not asked for
/// the mode. The resolver has to take every request.
///
/// The tree that results is the one that the rules of [`rules::expansion`] give
/// in this mode for the answers of the resolver. The first failure ends the
/// expansion and leaves `content` as it was. On success the leading attributes
/// of the tree are as before, and so are its items other than modules, in
/// their order. A tree in which no module lacks a body is left as it is, and
/// that never fails.
pub fn expand_in_mode<R: Resolver>(content: &mut Tree, resolver: &mut R, multi: bool) -> (r: Result<
    (),
    Error,
>)
    requires
        old(resolver).admits_every_request(),
    ensures
        final(resolver).admits_every_request(),
        exists|d: Seq<Dialogue>|
            accounts_for(
                Session { multi, dialogues: d },
                old(content)@,
                final(content)@,
                result_model(r),
            ),
        r is Err ==> final(content)@ == old(content)@,
        r is Ok ==> final(content)@.attrs == old(content)@.attrs,
        r is Ok ==> plain_items(final(content)@.items) == plain_items(old(content)@.items),
        has_no_external(old(content)@.items) ==> r is Ok && final(content)@ == old(content)@,
{
    let dirs = empty_stack();
    let (expanded, script) = expand_impl(
        &content.items,
        resolver,
        &empty_stack(),
        &clone_stack(&dirs),
        &dirs,
        multi,
    );
    let ghost s = Session { multi, dialogues: script@ };
    proof {
        if has_no_external(content@.items) {
            law_nothing_to_expand(content@.items, root_context(multi), script@);
        }
        law_plain_items_are_kept(content@.items, root_context(multi), script@);
    }
    match expanded {
        Ok(items) => {
            content.items = items;
            proof {
                assert(accounts_for(s, old(content)@, content@, Ok(())));
            }
            Ok(())
        },
        Err(e) => {
            proof {
                assert(accounts_for(s, old(content)@, content@, Err(e@)));
            }
            Err(e)
        },
    }
}

/// Replaces every `mod name;` in `content` by `mod name { .. }` with the items
/// of the module's file, and does the same within those items. The files come
/// from `resolver`, which also judges the guards on the way. The resolver is
/// asked once, before anything else, whether modules may come out in several
/// copies; the expansion is then [`expand_in_mode`] with its answer. The
/// resolver has to take every request.
///
/// The first failure ends the expansion and leaves `content` as it was. On
/// success the leading attributes of the tree are as before, and so are its
/// items other than modules, in their order. A tree in which no module lacks a
/// body is left as it is, and that never fails.
pub fn expand_modules_into_inline_modules<R: Resolver>(content: &mut Tree, resolver: &mut R) -> (r:
    Result<(), Error>)
    requires
        old(resolver).admits_every_request(),
    ensures
        final(resolver).admits_every_request(),
        exists|d: Seq<Dialogue>|
            accounts_for(
                Session { multi: old(resolver).allows_copies(), dialogues: d },
                old(content)@,
                final(content)@,
                result_model(r),
            ),
        r is Err ==> final(content)@ == old(content)@,
        r is Ok ==> final(content)@.attrs == old(content)@.attrs,
        r is Ok ==> plain_items(final(content)@.items) == plain_items(old(content)@.items),
        has_no_external(old(content)@.items) ==> r is Ok && final(content)@ == old(content)@,
{
    let mutltimodule_mode = resolver.allow_duplicate_modules_and_convert_cfg();
    let r = expand_in_mode(content, resolver, mutltimodule_mode);
    proof {
        let d = choose|d: Seq<Dialogue>|
            accounts_for(
                Session { multi: mutltimodule_mode, dialogues: d },
                old(content)@,
                content@,
                result_model(r),
            );
        assert(accounts_for(
            Session { multi: mutltimodule_mode, dialogues: d },
            old(content)@,
            content@,
            result_model(r),
        ));
    }
    r
}

} // verus!
