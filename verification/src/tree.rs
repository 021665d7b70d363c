//! The source tree on which expansion works: items, module declarations and
//! the attributes attached to them.
use vstd::prelude::*;
use crate::token::{clone_tokens, tokens_model, Token, TokenModel};

verus! {

/// Whether an attribute is written before an item (`#[..]`) or inside it (`#![..]`).
#[derive(Debug, Clone, Copy, PartialEq, Eq, Structural)]
pub enum AttrStyle {
    Outer,
    Inner,
}

/// An attribute: the path it begins with and the tokens that follow the path.
#[derive(Debug, PartialEq, Eq)]
pub struct Attribute {
    pub style: AttrStyle,
    /// The attribute's path as written, such as `cfg` or `rustfmt::skip`.
    pub key: String,
    /// Everything after the path.
    pub payload: Vec<Token>,
}

/// The mathematical value of an [`Attribute`].
pub struct AttributeModel {
    pub style: AttrStyle,
    pub key: Seq<char>,
    pub payload: Seq<TokenModel>,
}

impl View for Attribute {
    type V = AttributeModel;

    open spec fn view(&self) -> AttributeModel {
        AttributeModel { style: self.style, key: self.key@, payload: tokens_model(self.payload@) }
    }
}

/// The values of a run of attributes, in order.
pub open spec fn attributes_model(attrs: Seq<Attribute>) -> Seq<AttributeModel> {
    attrs.map_values(|a: Attribute| a@)
}

/// A module declaration. With `content` absent it is `mod name;`, whose body
/// lives in another file; with `content` present it is `mod name { .. }`.
#[derive(Debug, PartialEq, Eq)]
pub struct Module {
    pub attrs: Vec<Attribute>,
    /// The visibility in front of `mod`, as written; empty for a private module.
    pub vis: String,
    pub name: String,
    pub content: Option<Vec<Item>>,
}

/// One item of a tree. Only module declarations are interpreted; every other
/// item is carried along as the text it was written as.
#[derive(Debug, PartialEq, Eq)]
pub enum Item {
    Module(Module),
    Other(String),
}

/// A parsed source file: its leading attributes and its items.
#[derive(Debug, PartialEq, Eq)]
pub struct Tree {
    pub attrs: Vec<Attribute>,
    pub items: Vec<Item>,
}

/// The mathematical value of a [`Module`].
pub struct ModuleModel {
    pub attrs: Seq<AttributeModel>,
    pub vis: Seq<char>,
    pub name: Seq<char>,
    pub content: Option<Seq<ItemModel>>,
}

/// The mathematical value of an [`Item`].
pub enum ItemModel {
    Module(ModuleModel),
    Other(Seq<char>),
}

/// The mathematical value of a [`Tree`].
pub struct TreeModel {
    pub attrs: Seq<AttributeModel>,
    pub items: Seq<ItemModel>,
}

impl ModuleModel {
    /// `mod name;`: the body is to be found in another file.
    pub open spec fn is_external(self) -> bool {
        self.content is None
    }
}

impl ItemModel {
    /// Whether this item is a module declaration without a body.
    pub open spec fn is_external_module(self) -> bool {
        self matches ItemModel::Module(m) && m.is_external()
    }
}

/// The value of a module declaration.
pub open spec fn module_model(m: Module) -> ModuleModel
    decreases m,
{
    ModuleModel {
        attrs: attributes_model(m.attrs@),
        vis: m.vis@,
        name: m.name@,
        content: match m.content {
            Some(items) => Some(items_model(items@)),
            None => None,
        },
    }
}

/// The value of one item.
pub open spec fn item_model(item: Item) -> ItemModel
    decreases item,
{
    match item {
        Item::Module(m) => ItemModel::Module(module_model(m)),
        Item::Other(text) => ItemModel::Other(text@),
    }
}

/// The values of a run of items, in order.
pub open spec fn items_model(items: Seq<Item>) -> Seq<ItemModel>
    decreases items,
{
    Seq::new(
        items.len(),
        |i: int|
            if 0 <= i < items.len() {
                item_model(items[i])
            } else {
                ItemModel::Other(Seq::empty())
            },
    )
}

impl View for Module {
    type V = ModuleModel;

    open spec fn view(&self) -> ModuleModel {
        module_model(*self)
    }
}

impl View for Item {
    type V = ItemModel;

    open spec fn view(&self) -> ItemModel {
        item_model(*self)
    }
}

impl View for Tree {
    type V = TreeModel;

    open spec fn view(&self) -> TreeModel {
        TreeModel { attrs: attributes_model(self.attrs@), items: items_model(self.items@) }
    }
}

/// Appending an attribute appends its value.
pub proof fn lemma_attributes_model_push(attrs: Seq<Attribute>, a: Attribute)
    ensures
        attributes_model(attrs.push(a)) == attributes_model(attrs).push(a@),
{
    assert(attributes_model(attrs.push(a)) =~= attributes_model(attrs).push(a@));
}

/// Appending an item appends its value.
pub proof fn lemma_items_model_push(items: Seq<Item>, item: Item)
    ensures
        items_model(items.push(item)) == items_model(items).push(item_model(item)),
{
    assert(items_model(items.push(item)) =~= items_model(items).push(item_model(item)));
}

impl Clone for Attribute {
    fn clone(&self) -> (r: Attribute)
        ensures
            r@ == self@,
    {
        Attribute { style: self.style, key: self.key.clone(), payload: clone_tokens(&self.payload) }
    }
}

/// A copy of a run of attributes.
pub fn clone_attributes(attrs: &Vec<Attribute>) -> (r: Vec<Attribute>)
    ensures
        attributes_model(r@) == attributes_model(attrs@),
{
    let mut out: Vec<Attribute> = Vec::new();
    let mut i: usize = 0;
    while i < attrs.len()
        invariant
            i <= attrs.len(),
            out.len() == i,
            forall|j: int| 0 <= j < i ==> out@[j]@ == attrs@[j]@,
        decreases attrs.len() - i,
    {
        let a = attrs[i].clone();
        out.push(a);
        i = i + 1;
    }
    assert(attributes_model(out@) =~= attributes_model(attrs@));
    out
}

impl Clone for Module {
    fn clone(&self) -> (r: Module)
        ensures
            r@ == self@,
        decreases self,
    {
        Module {
            attrs: clone_attributes(&self.attrs),
            vis: self.vis.clone(),
            name: self.name.clone(),
            content: match &self.content {
                Some(items) => Some(clone_items(items)),
                None => None,
            },
        }
    }
}

impl Clone for Item {
    fn clone(&self) -> (r: Item)
        ensures
            r@ == self@,
        decreases self,
    {
        match self {
            Item::Module(m) => Item::Module(m.clone()),
            Item::Other(text) => Item::Other(text.clone()),
        }
    }
}

/// A copy of a run of items.
pub fn clone_items(items: &Vec<Item>) -> (r: Vec<Item>)
    ensures
        items_model(r@) == items_model(items@),
    decreases items,
{
    let mut out: Vec<Item> = Vec::new();
    let mut i: usize = 0;
    while i < items.len()
        invariant
            i <= items.len(),
            out.len() == i,
            forall|j: int| 0 <= j < i ==> item_model(out@[j]) == item_model(items@[j]),
        decreases items.len() - i,
    {
        let item = items[i].clone();
        out.push(item);
        i = i + 1;
    }
    assert(items_model(out@) =~= items_model(items@));
    out
}

impl Clone for Tree {
    fn clone(&self) -> (r: Tree)
        ensures
            r@ == self@,
    {
        Tree { attrs: clone_attributes(&self.attrs), items: clone_items(&self.items) }
    }
}

} // verus!
