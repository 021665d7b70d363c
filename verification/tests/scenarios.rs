use syn_file_expand::{
    expand_in_mode, expand_modules_into_inline_modules, AttrStyle, Attribute, Delimiter, Error, ErrorCase, Item,
    Module, Resolver, Token, Tree, UserError,
};

fn ident(s: &str) -> Token {
    Token::Ident(s.to_owned())
}

fn lit(s: &str) -> Token {
    Token::Literal(format!("{:?}", s))
}

fn parens(inner: Vec<Token>) -> Token {
    Token::Group(Delimiter::Parenthesis, inner)
}

fn attr(key: &str, payload: Vec<Token>) -> Attribute {
    Attribute { style: AttrStyle::Outer, key: key.to_owned(), payload }
}

fn path_attr(path: &str) -> Attribute {
    attr("path", vec![Token::Punct('='), lit(path)])
}

fn cfg(cond: Vec<Token>) -> Attribute {
    attr("cfg", vec![parens(cond)])
}

fn cfg_attr_path(mut cond: Vec<Token>, path: &str) -> Attribute {
    cond.push(Token::Punct(','));
    cond.push(ident("path"));
    cond.push(Token::Punct('='));
    cond.push(lit(path));
    attr("cfg_attr", vec![parens(cond)])
}

fn feature(name: &str) -> Vec<Token> {
    vec![ident("feature"), Token::Punct('='), lit(name)]
}

fn other(text: &str) -> Item {
    Item::Other(text.to_owned())
}

fn declared(attrs: Vec<Attribute>, name: &str) -> Item {
    Item::Module(Module { attrs, vis: String::new(), name: name.to_owned(), content: None })
}

fn inline(attrs: Vec<Attribute>, name: &str, items: Vec<Item>) -> Item {
    Item::Module(Module { attrs, vis: String::new(), name: name.to_owned(), content: Some(items) })
}

fn file(items: Vec<Item>) -> Tree {
    Tree { attrs: vec![], items }
}

/// A resolver that knows some files and some guards, and notes what it is asked.
struct Scripted {
    files: Vec<(&'static str, Tree)>,
    failing: Vec<(&'static str, ErrorCase)>,
    holding: Vec<Vec<Token>>,
    broken: Vec<Vec<Token>>,
    multi: bool,
    asked_files: Vec<(Vec<String>, String)>,
    asked_guards: Vec<Vec<Token>>,
}

impl Scripted {
    fn new(multi: bool) -> Self {
        Scripted {
            files: vec![],
            failing: vec![],
            holding: vec![],
            broken: vec![],
            multi,
            asked_files: vec![],
            asked_guards: vec![],
        }
    }

    fn with_file(mut self, path: &'static str, items: Vec<Item>) -> Self {
        self.files.push((path, file(items)));
        self
    }

    fn failing_at(mut self, path: &'static str, cause: ErrorCase) -> Self {
        self.failing.push((path, cause));
        self
    }

    fn holding(mut self, guard: Vec<Token>) -> Self {
        self.holding.push(guard);
        self
    }

    fn broken(mut self, guard: Vec<Token>) -> Self {
        self.broken.push(guard);
        self
    }

    fn paths(&self) -> Vec<&str> {
        self.asked_files.iter().map(|(_, p)| p.as_str()).collect()
    }
}

impl Resolver for Scripted {
    fn resolve(&mut self, module_name: Vec<String>, path: String) -> Result<Option<Tree>, Error> {
        self.asked_files.push((module_name.clone(), path.clone()));
        if let Some(k) = self.failing.iter().position(|(p, _)| *p == path) {
            let (_, cause) = self.failing.remove(k);
            return Err(Error { module: module_name, inner: cause });
        }
        Ok(self.files.iter().find(|(p, _)| *p == path).map(|(_, t)| t.clone()))
    }

    fn check_cfg(&mut self, cfg: Vec<Token>) -> Result<bool, UserError> {
        self.asked_guards.push(cfg.clone());
        if self.broken.contains(&cfg) {
            return Err("cannot tell".to_owned());
        }
        Ok(self.holding.contains(&cfg))
    }

    fn allow_duplicate_modules_and_convert_cfg(&mut self) -> bool {
        self.multi
    }

    fn allows_copies(&self) -> bool {
        self.multi
    }
}

fn names(v: &[&str]) -> Vec<String> {
    v.iter().map(|s| s.to_string()).collect()
}

#[test]
fn scenario_nested_conventional_files() {
    let mut tree = file(vec![declared(vec![], "qqq")]);
    let mut r = Scripted::new(false)
        .with_file("qqq.rs", vec![other("trait Ror {}"), declared(vec![], "www")])
        .with_file("qqq/www/mod.rs", vec![other("type Q = i32;"), declared(vec![], "deep")]);
    expand_modules_into_inline_modules(&mut tree, &mut r).unwrap();
    assert_eq!(
        tree,
        file(vec![inline(
            vec![],
            "qqq",
            vec![
                other("trait Ror {}"),
                inline(vec![], "www", vec![other("type Q = i32;"), declared(vec![], "deep")]),
            ],
        )])
    );
    assert_eq!(
        r.asked_files,
        vec![
            (names(&["qqq"]), "qqq.rs".to_owned()),
            (names(&["qqq"]), "qqq/mod.rs".to_owned()),
            (names(&["qqq", "www"]), "qqq/www.rs".to_owned()),
            (names(&["qqq", "www"]), "qqq/www/mod.rs".to_owned()),
            (names(&["qqq", "www", "deep"]), "qqq/www/deep.rs".to_owned()),
            (names(&["qqq", "www", "deep"]), "qqq/www/deep/mod.rs".to_owned()),
        ]
    );
}

#[test]
fn scenario_exclusive_feature_overrides() {
    let unrelated =
        attr("cfg_attr", vec![parens(vec![ident("qqq"), Token::Punct(','), ident("www")])]);
    let mut tree = file(vec![declared(
        vec![
            cfg_attr_path(feature("lol"), "lol.rs"),
            cfg_attr_path(vec![ident("windows")], "win.rs"),
            unrelated.clone(),
        ],
        "qqq",
    )]);
    let mut r = Scripted::new(false)
        .with_file("win.rs", vec![other("struct Win;")])
        .holding(vec![ident("windows")]);
    expand_modules_into_inline_modules(&mut tree, &mut r).unwrap();
    assert_eq!(tree, file(vec![inline(vec![unrelated], "qqq", vec![other("struct Win;")])]));
    assert_eq!(r.asked_guards, vec![feature("lol"), vec![ident("windows")]]);
    assert_eq!(r.paths(), vec!["win.rs"]);
}

#[test]
fn scenario_multi_variant_copies() {
    let mut tree = file(vec![declared(
        vec![cfg_attr_path(feature("b"), "b.rs"), cfg_attr_path(feature("c"), "c.rs")],
        "tricky",
    )]);
    let mut r = Scripted::new(true)
        .with_file("b.rs", vec![other("struct B;")])
        .with_file("c.rs", vec![other("struct C;")])
        .with_file("tricky.rs", vec![other("struct Tricky;")])
        .holding(feature("b"))
        .holding(feature("c"));
    expand_modules_into_inline_modules(&mut tree, &mut r).unwrap();

    let mut any = feature("b");
    any.push(Token::Punct(','));
    any.extend(feature("c"));
    let none_of_them = vec![ident("not"), parens(vec![ident("any"), parens(any)])];
    assert_eq!(
        tree,
        file(vec![
            inline(vec![cfg(feature("b"))], "tricky", vec![other("struct B;")]),
            inline(vec![cfg(feature("c"))], "tricky", vec![other("struct C;")]),
            inline(vec![cfg(none_of_them)], "tricky", vec![other("struct Tricky;")]),
        ])
    );
    assert_eq!(r.paths(), vec!["b.rs", "c.rs", "tricky.rs", "tricky/mod.rs"]);
}

#[test]
fn multi_variant_without_fallback_file() {
    let mut tree = file(vec![
        other("struct First;"),
        declared(vec![cfg_attr_path(feature("b"), "b.rs")], "tricky"),
        other("struct Last;"),
    ]);
    let mut r =
        Scripted::new(true).with_file("b.rs", vec![other("struct B;")]).holding(feature("b"));
    expand_modules_into_inline_modules(&mut tree, &mut r).unwrap();
    assert_eq!(
        tree,
        file(vec![
            other("struct First;"),
            inline(vec![cfg(feature("b"))], "tricky", vec![other("struct B;")]),
            other("struct Last;"),
        ])
    );
}

#[test]
fn multi_variant_two_plain_overrides_give_two_copies() {
    let mut tree = file(vec![declared(vec![path_attr("a.rs"), path_attr("b.rs")], "m")]);
    let mut r = Scripted::new(true)
        .with_file("a.rs", vec![other("struct A;")])
        .with_file("b.rs", vec![other("struct B;")])
        .with_file("m.rs", vec![other("struct M;")]);
    expand_modules_into_inline_modules(&mut tree, &mut r).unwrap();
    assert_eq!(
        tree,
        file(vec![
            inline(vec![], "m", vec![other("struct A;")]),
            inline(vec![], "m", vec![other("struct B;")]),
        ])
    );
    assert_eq!(r.paths(), vec!["a.rs", "b.rs"]);
}

#[test]
fn single_mode_carries_no_guard_onto_the_module() {
    let mut tree = file(vec![declared(vec![cfg_attr_path(feature("b"), "b.rs")], "m")]);
    let mut r =
        Scripted::new(false).with_file("b.rs", vec![other("struct B;")]).holding(feature("b"));
    expand_modules_into_inline_modules(&mut tree, &mut r).unwrap();
    assert_eq!(tree, file(vec![inline(vec![], "m", vec![other("struct B;")])]));
    assert_eq!(r.paths(), vec!["b.rs"]);
}

#[test]
fn already_inlined_tree_is_left_alone() {
    for multi in [false, true] {
        let untouched = file(vec![
            other("struct S;"),
            inline(
                vec![cfg(vec![ident("unix")])],
                "a",
                vec![inline(vec![], "b", vec![other("fn f() {}")])],
            ),
        ]);
        let mut tree = untouched.clone();
        let mut r = Scripted::new(multi);
        expand_modules_into_inline_modules(&mut tree, &mut r).unwrap();
        assert_eq!(tree, untouched);
        assert!(r.asked_files.is_empty());
        assert!(r.asked_guards.is_empty());
    }
}

#[test]
fn expanding_twice_changes_nothing_more() {
    let mut tree = file(vec![declared(vec![], "a")]);
    let mut r = Scripted::new(false).with_file("a.rs", vec![other("fn f() {}")]);
    expand_modules_into_inline_modules(&mut tree, &mut r).unwrap();
    let once = tree.clone();
    let mut nothing = Scripted::new(false);
    expand_modules_into_inline_modules(&mut tree, &mut nothing).unwrap();
    assert_eq!(tree, once);
    assert!(nothing.asked_files.is_empty());
}

#[test]
fn tree_without_modules_is_returned_unchanged() {
    let untouched = Tree {
        attrs: vec![attr("allow", vec![parens(vec![ident("dead_code")])])],
        items: vec![other("use a::b;"), other("fn main() {}")],
    };
    let mut tree = untouched.clone();
    expand_modules_into_inline_modules(&mut tree, &mut Scripted::new(true)).unwrap();
    assert_eq!(tree, untouched);
}

#[test]
fn empty_tree_is_returned_unchanged() {
    let mut tree = file(vec![]);
    expand_modules_into_inline_modules(&mut tree, &mut Scripted::new(false)).unwrap();
    assert_eq!(tree, file(vec![]));
}

#[test]
fn unresolved_module_stays_external() {
    for multi in [false, true] {
        let untouched = file(vec![
            other("struct S;"),
            Item::Module(Module {
                attrs: vec![cfg_attr_path(feature("x"), "x.rs"), attr("doc", vec![])],
                vis: "pub(crate)".to_owned(),
                name: "gone".to_owned(),
                content: None,
            }),
        ]);
        let mut tree = untouched.clone();
        let mut r = Scripted::new(multi);
        expand_modules_into_inline_modules(&mut tree, &mut r).unwrap();
        assert_eq!(tree, untouched);
        assert_eq!(r.paths(), vec!["gone.rs", "gone/mod.rs"]);
    }
}

#[test]
fn files_that_cannot_be_opened_count_as_absent_for_conventional_places() {
    let missing = |p: &str| ErrorCase::FailedToOpenFile {
        path: p.to_owned(),
        e: "No such file or directory".to_owned(),
    };
    let untouched = file(vec![declared(vec![], "gone")]);
    let mut tree = untouched.clone();
    let mut r = Scripted::new(false)
        .failing_at("gone.rs", missing("gone.rs"))
        .failing_at("gone/mod.rs", missing("gone/mod.rs"));
    expand_modules_into_inline_modules(&mut tree, &mut r).unwrap();
    assert_eq!(tree, untouched);

    let mut tree = file(vec![declared(vec![], "here")]);
    let mut r = Scripted::new(false)
        .failing_at("here.rs", missing("here.rs"))
        .with_file("here/mod.rs", vec![other("fn f() {}")]);
    expand_modules_into_inline_modules(&mut tree, &mut r).unwrap();
    assert_eq!(tree, file(vec![inline(vec![], "here", vec![other("fn f() {}")])]));
}

#[test]
fn file_that_cannot_be_opened_fails_an_override() {
    let mut tree = file(vec![declared(vec![path_attr("x.rs")], "m")]);
    let cause =
        ErrorCase::FailedToOpenFile { path: "x.rs".to_owned(), e: "denied".to_owned() };
    let mut r = Scripted::new(false).failing_at(
        "x.rs",
        ErrorCase::FailedToOpenFile { path: "x.rs".to_owned(), e: "denied".to_owned() },
    );
    let e = expand_modules_into_inline_modules(&mut tree, &mut r).unwrap_err();
    assert_eq!(e, Error { module: names(&["m"]), inner: cause });
}

#[test]
fn two_plain_overrides_conflict() {
    let untouched = file(vec![declared(vec![path_attr("a.rs"), path_attr("b.rs")], "m")]);
    let mut tree = untouched.clone();
    let mut r = Scripted::new(false)
        .with_file("a.rs", vec![other("struct A;")])
        .with_file("b.rs", vec![other("struct B;")]);
    let e = expand_modules_into_inline_modules(&mut tree, &mut r).unwrap_err();
    assert_eq!(
        e,
        Error {
            module: names(&["m"]),
            inner: ErrorCase::MultipleExplicitPathsSpecifiedForOneModule
        }
    );
    assert_eq!(r.paths(), vec!["a.rs"]);
    assert_eq!(tree, untouched);

    let mut tree = untouched.clone();
    let e = expand_modules_into_inline_modules(&mut tree, &mut Scripted::new(false)).unwrap_err();
    assert_eq!(e.inner, ErrorCase::MultipleExplicitPathsSpecifiedForOneModule);
}

#[test]
fn plain_override_after_an_accepted_guarded_one_conflicts() {
    let mut tree =
        file(vec![declared(vec![cfg_attr_path(feature("a"), "a.rs"), path_attr("b.rs")], "m")]);
    let mut r = Scripted::new(false).holding(feature("a"));
    let e = expand_modules_into_inline_modules(&mut tree, &mut r).unwrap_err();
    assert_eq!(e.inner, ErrorCase::MultipleExplicitPathsSpecifiedForOneModule);
}

#[test]
fn both_conventional_files_conflict() {
    for multi in [false, true] {
        let untouched = file(vec![other("struct S;"), declared(vec![], "m")]);
        let mut tree = untouched.clone();
        let mut r = Scripted::new(multi)
            .with_file("m.rs", vec![other("struct A;")])
            .with_file("m/mod.rs", vec![other("struct B;")]);
        let e = expand_modules_into_inline_modules(&mut tree, &mut r).unwrap_err();
        assert_eq!(
            e,
            Error { module: names(&["m"]), inner: ErrorCase::BothModRsAndNameRsPresent }
        );
        assert_eq!(tree, untouched);
    }
}

#[test]
fn module_with_false_guard_is_absent() {
    for multi in [false, true] {
        let mut tree = file(vec![
            other("struct S;"),
            declared(vec![cfg(vec![ident("yes")]), cfg(vec![ident("no")]), cfg(vec![ident("never")])], "m"),
            other("struct T;"),
        ]);
        let mut r = Scripted::new(multi)
            .with_file("m.rs", vec![other("struct A;")])
            .holding(vec![ident("yes")]);
        expand_modules_into_inline_modules(&mut tree, &mut r).unwrap();
        assert_eq!(tree, file(vec![other("struct S;"), other("struct T;")]));
        assert_eq!(r.asked_guards, vec![vec![ident("yes")], vec![ident("no")]]);
        assert!(r.asked_files.is_empty());
    }
}

#[test]
fn override_rebases_the_children() {
    let mut tree = file(vec![declared(vec![path_attr("a/b.rs")], "m")]);
    let mut r = Scripted::new(false)
        .with_file("a/b.rs", vec![declared(vec![], "c"), declared(vec![path_attr("d.rs")], "d")])
        .with_file("a/c/mod.rs", vec![other("struct C;")])
        .with_file("a/d.rs", vec![other("struct D;")]);
    expand_modules_into_inline_modules(&mut tree, &mut r).unwrap();
    assert_eq!(r.paths(), vec!["a/b.rs", "a/c.rs", "a/c/mod.rs", "a/d.rs"]);
    assert_eq!(
        tree,
        file(vec![inline(
            vec![],
            "m",
            vec![
                inline(vec![], "c", vec![other("struct C;")]),
                inline(vec![], "d", vec![other("struct D;")]),
            ],
        )])
    );
}

#[test]
fn overrides_of_children_are_relative_to_the_file_that_declares_them() {
    // Beside `m.rs` for a module found as `m.rs`, inside `m/` for one found as `m/mod.rs`.
    let mut tree = file(vec![declared(vec![], "m"), declared(vec![], "n")]);
    let mut r = Scripted::new(false)
        .with_file("m.rs", vec![declared(vec![path_attr("x.rs")], "x")])
        .with_file("n/mod.rs", vec![declared(vec![path_attr("y.rs")], "y")]);
    expand_modules_into_inline_modules(&mut tree, &mut r).unwrap();
    assert_eq!(r.paths(), vec!["m.rs", "m/mod.rs", "x.rs", "n.rs", "n/mod.rs", "n/y.rs"]);
}

#[test]
fn failed_guard_evaluation_is_reported() {
    let untouched = file(vec![declared(vec![cfg(vec![ident("odd")])], "m")]);
    let mut tree = untouched.clone();
    let mut r = Scripted::new(false).broken(vec![ident("odd")]);
    let e = expand_modules_into_inline_modules(&mut tree, &mut r).unwrap_err();
    assert_eq!(
        e,
        Error {
            module: names(&["m"]),
            inner: ErrorCase::ErrorFromCallback("cannot tell".to_owned())
        }
    );
    assert_eq!(tree, untouched);

    let mut tree = file(vec![declared(vec![cfg_attr_path(vec![ident("odd")], "a.rs")], "m")]);
    let mut r = Scripted::new(false).broken(vec![ident("odd")]);
    let e = expand_modules_into_inline_modules(&mut tree, &mut r).unwrap_err();
    assert_eq!(e.inner, ErrorCase::ErrorFromCallback("cannot tell".to_owned()));
}

#[test]
fn failure_of_the_resolver_is_passed_on_with_its_module() {
    let mut tree = file(vec![declared(vec![], "a")]);
    let mut r = Scripted::new(false)
        .with_file("a.rs", vec![declared(vec![], "b")])
        .failing_at("a/b/mod.rs", ErrorCase::SynParseError("expected item".to_owned()));
    let e = expand_modules_into_inline_modules(&mut tree, &mut r).unwrap_err();
    assert_eq!(
        e,
        Error {
            module: names(&["a", "b"]),
            inner: ErrorCase::SynParseError("expected item".to_owned())
        }
    );
    assert_eq!(tree, file(vec![declared(vec![], "a")]));
}

#[test]
fn fatal_failure_of_the_first_conventional_place_ends_the_search() {
    let mut tree = file(vec![declared(vec![], "a")]);
    let mut r = Scripted::new(false)
        .failing_at("a.rs", ErrorCase::SynParseError("bad".to_owned()))
        .with_file("a/mod.rs", vec![]);
    let e = expand_modules_into_inline_modules(&mut tree, &mut r).unwrap_err();
    assert_eq!(e.inner, ErrorCase::SynParseError("bad".to_owned()));
    assert_eq!(r.paths(), vec!["a.rs"]);
}

#[test]
fn malformed_attribute_is_reported_before_anything_is_asked() {
    let untouched = file(vec![declared(
        vec![cfg(vec![ident("no")]), attr("path", vec![parens(vec![lit("x.rs")])])],
        "m",
    )]);
    let mut tree = untouched.clone();
    let mut r = Scripted::new(false);
    let e = expand_modules_into_inline_modules(&mut tree, &mut r).unwrap_err();
    assert_eq!(
        e,
        Error {
            module: names(&["m"]),
            inner: ErrorCase::AttrParseError(
                syn_file_expand::AttrParseError::FirstTokenIsNotEqualSign
            )
        }
    );
    assert!(r.asked_guards.is_empty());
    assert_eq!(tree, untouched);
}

#[test]
fn visibility_and_leading_attributes_are_kept() {
    let mut tree = file(vec![Item::Module(Module {
        attrs: vec![attr("doc", vec![Token::Punct('='), lit("hello")]), cfg(vec![ident("yes")])],
        vis: "pub".to_owned(),
        name: "m".to_owned(),
        content: None,
    })]);
    let leading = Attribute { style: AttrStyle::Inner, key: "allow".to_owned(), payload: vec![] };
    let mut r = Scripted::new(false).holding(vec![ident("yes")]);
    r.files.push(("m.rs", Tree { attrs: vec![leading.clone()], items: vec![other("fn f() {}")] }));
    expand_modules_into_inline_modules(&mut tree, &mut r).unwrap();
    assert_eq!(
        tree,
        file(vec![Item::Module(Module {
            attrs: vec![attr("doc", vec![Token::Punct('='), lit("hello")]), leading],
            vis: "pub".to_owned(),
            name: "m".to_owned(),
            content: Some(vec![other("fn f() {}")]),
        })])
    );
}

#[test]
fn modules_in_inline_bodies_are_not_looked_for() {
    let untouched = file(vec![inline(vec![], "outer", vec![declared(vec![], "inner")])]);
    let mut tree = untouched.clone();
    let mut r = Scripted::new(false).with_file("outer/inner.rs", vec![other("struct I;")]);
    expand_modules_into_inline_modules(&mut tree, &mut r).unwrap();
    assert_eq!(tree, untouched);
    assert!(r.asked_files.is_empty());
}

#[test]
fn other_items_keep_their_places_among_the_copies() {
    let mut tree = file(vec![
        other("struct First;"),
        declared(vec![cfg_attr_path(feature("a"), "a.rs"), cfg_attr_path(feature("b"), "b.rs")], "m"),
        other("struct Second;"),
        declared(vec![cfg(vec![ident("never")])], "gone"),
        inline(vec![], "kept", vec![]),
        other("struct Third;"),
    ]);
    let mut r = Scripted::new(true)
        .with_file("a.rs", vec![other("struct A;")])
        .with_file("b.rs", vec![other("struct B;")])
        .holding(feature("a"))
        .holding(feature("b"));
    expand_modules_into_inline_modules(&mut tree, &mut r).unwrap();
    assert_eq!(
        tree,
        file(vec![
            other("struct First;"),
            inline(vec![cfg(feature("a"))], "m", vec![other("struct A;")]),
            inline(vec![cfg(feature("b"))], "m", vec![other("struct B;")]),
            other("struct Second;"),
            inline(vec![], "kept", vec![]),
            other("struct Third;"),
        ])
    );
}

#[test]
fn the_mode_given_decides_not_the_resolver() {
    let declared_twice = || file(vec![declared(vec![path_attr("a.rs"), path_attr("b.rs")], "m")]);

    // copies asked for, though the resolver would say no
    let mut tree = declared_twice();
    let mut r = Scripted::new(false)
        .with_file("a.rs", vec![other("struct A;")])
        .with_file("b.rs", vec![other("struct B;")]);
    expand_in_mode(&mut tree, &mut r, true).unwrap();
    assert_eq!(
        tree,
        file(vec![
            inline(vec![], "m", vec![other("struct A;")]),
            inline(vec![], "m", vec![other("struct B;")]),
        ])
    );

    // no copies asked for, though the resolver would say yes
    let mut tree = declared_twice();
    let mut r = Scripted::new(true)
        .with_file("a.rs", vec![other("struct A;")])
        .with_file("b.rs", vec![other("struct B;")]);
    let e = expand_in_mode(&mut tree, &mut r, false).unwrap_err();
    assert_eq!(e.inner, ErrorCase::MultipleExplicitPathsSpecifiedForOneModule);
    assert_eq!(tree, declared_twice());
}

#[test]
fn module_placed_without_a_directory_rebases_to_nowhere() {
    // `/b.rs` lies in the root; a path that is only a root holds no directory.
    let mut tree = file(vec![
        declared(vec![path_attr("/b.rs")], "m"),
        declared(vec![path_attr("/")], "n"),
        declared(vec![path_attr("x/y/")], "o"),
    ]);
    let mut r = Scripted::new(false)
        .with_file("/b.rs", vec![declared(vec![], "c")])
        .with_file("/", vec![declared(vec![], "c")])
        .with_file("x/y/", vec![declared(vec![], "c")]);
    expand_modules_into_inline_modules(&mut tree, &mut r).unwrap();
    assert_eq!(
        r.paths(),
        vec![
            "/b.rs", "/c.rs", "/c/mod.rs", "/", "c.rs", "c/mod.rs", "x/y/", "x/c.rs",
            "x/c/mod.rs"
        ]
    );
}
