//! The source of files and of guard verdicts that expansion consults.
use vstd::prelude::*;
use crate::error::{Error, UserError};
use crate::token::Token;
use crate::tree::Tree;

verus! {

/// Where expansion gets the files of modules and the verdicts on guards.
/// [`ResolverHelper`] builds one from two closures.
pub trait Resolver {
    /// Whether the resolver takes every request: any module and place may be
    /// asked for, and any guard be put to it. Expansion asks this of its
    /// resolver, and a resolver that takes every request still does so after
    /// each of them.
    open spec fn admits_every_request(&self) -> bool {
        true
    }

    /// What the resolver answers when asked whether modules may come out in
    /// several copies.
    open spec fn allows_copies(&self) -> bool {
        false
    }

    /// Called for each place where the file of the module `module_name` (the
    /// names from the root down to it) may be. `path_relative_to_crate_root` is
    /// that place, relative to the directory of the root file. `Ok(None)` says
    /// that there is no such file.
    ///
    /// One module may be asked for more than once, as for `name.rs` and
    /// `name/mod.rs`.
    fn resolve(&mut self, module_name: Vec<String>, path_relative_to_crate_root: String) -> (r:
        Result<Option<Tree>, Error>)
        requires
            old(self).admits_every_request(),
        ensures
            final(self).admits_every_request(),
    ;

    /// Called for the condition of each `#[cfg(..)]` on a module declaration and
    /// of each `#[cfg_attr(.., path = ..)]`: whether it holds.
    fn check_cfg(&mut self, cfg: Vec<Token>) -> (r: Result<bool, UserError>)
        requires
            old(self).admits_every_request(),
        ensures
            final(self).admits_every_request(),
    ;

    /// Whether a module with several places that apply is to come out once for
    /// each of them, each copy under the `#[cfg(..)]` of its place, instead of
    /// being an error. Asked once for each expansion, before anything else.
    fn allow_duplicate_modules_and_convert_cfg(&mut self) -> (r: bool)
        ensures
            r == old(self).allows_copies(),
            old(self).admits_every_request() ==> final(self).admits_every_request(),
    ;
}

/// A [`Resolver`] made of two closures: the first finds files, the second
/// judges guards. Modules never come out in several copies.
pub struct ResolverHelper<F1, F2>(pub F1, pub F2) where
    F1: FnMut(Vec<String>, String) -> Result<Option<Tree>, Error>,
    F2: FnMut(Vec<Token>) -> Result<bool, UserError>,
;

/// Whether both closures of the helper take every argument.
pub open spec fn closures_admit_all<F1, F2>(helper: ResolverHelper<F1, F2>) -> bool where
    F1: FnMut(Vec<String>, String) -> Result<Option<Tree>, Error>,
    F2: FnMut(Vec<Token>) -> Result<bool, UserError>,
 {
    &&& forall|module_name: Vec<String>, path: String| #[trigger]
        call_requires(helper.0, (module_name, path))
    &&& forall|cfg: Vec<Token>| #[trigger] call_requires(helper.1, (cfg,))
}

/// A helper takes every request where both of its closures take every
/// argument, and it never allows copies.
pub proof fn law_helper_takes_what_its_closures_take<F1, F2>(helper: ResolverHelper<F1, F2>) where
    F1: FnMut(Vec<String>, String) -> Result<Option<Tree>, Error>,
    F2: FnMut(Vec<Token>) -> Result<bool, UserError>,

    ensures
        helper.admits_every_request() == closures_admit_all(helper),
        !helper.allows_copies(),
{
}

impl<F1, F2> Resolver for ResolverHelper<F1, F2> where
    F1: FnMut(Vec<String>, String) -> Result<Option<Tree>, Error>,
    F2: FnMut(Vec<Token>) -> Result<bool, UserError>,
 {
    /// Both closures take every argument.
    open spec fn admits_every_request(&self) -> bool {
        closures_admit_all(*self)
    }

    open spec fn allows_copies(&self) -> bool {
        false
    }

    /// Hands the request to the first closure and gives back what it returns.
    fn resolve(&mut self, module_name: Vec<String>, path_relative_to_crate_root: String) -> (r:
        Result<Option<Tree>, Error>)
        ensures
            call_ensures(old(self).0, (module_name, path_relative_to_crate_root), r),
    {
        (self.0)(module_name, path_relative_to_crate_root)
    }

    /// Hands the guard to the second closure and gives back what it returns.
    fn check_cfg(&mut self, cfg: Vec<Token>) -> (r: Result<bool, UserError>)
        ensures
            call_ensures(old(self).1, (cfg,), r),
    {
        (self.1)(cfg)
    }

    /// The answer is no.
    fn allow_duplicate_modules_and_convert_cfg(&mut self) -> (r: bool)
        ensures
            !r,
    {
        false
    }
}

} // verus!
