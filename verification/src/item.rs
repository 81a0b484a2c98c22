//! A function definition: its signature, generics, parameters and body.

use crate::syntax::{Type, TypeView};
use vstd::prelude::*;

verus! {

/// The views of the items of a vector, in order.
pub open spec fn views<T: View>(items: Vec<T>) -> Seq<T::V> {
    items@.map_values(|item: T| item@)
}

/// The view of what an option holds.
pub open spec fn option_view<T: View>(option: Option<T>) -> Option<T::V> {
    match option {
        Some(item) => Some(item@),
        None => None,
    }
}

/// One generic parameter of a function.
#[derive(Debug, PartialEq, Eq)]
pub enum GenericParam {
    /// A parameter that the function was written with, as source text.
    Verbatim(String),
    /// A lifetime parameter, named without its apostrophe.
    Lifetime(String),
    /// A type parameter without bounds.
    Type(String),
}

/// The view of a [`GenericParam`].
pub enum GenericParamView {
    Verbatim(Seq<char>),
    Lifetime(Seq<char>),
    Type(Seq<char>),
}

impl View for GenericParam {
    type V = GenericParamView;

    open spec fn view(&self) -> GenericParamView {
        match self {
            GenericParam::Verbatim(text) => GenericParamView::Verbatim(text@),
            GenericParam::Lifetime(name) => GenericParamView::Lifetime(name@),
            GenericParam::Type(name) => GenericParamView::Type(name@),
        }
    }
}

impl Clone for GenericParam {
    fn clone(&self) -> (copy: Self)
        ensures
            copy@ == self@,
    {
        match self {
            GenericParam::Verbatim(text) => GenericParam::Verbatim(text.clone()),
            GenericParam::Lifetime(name) => GenericParam::Lifetime(name.clone()),
            GenericParam::Type(name) => GenericParam::Type(name.clone()),
        }
    }
}

/// What a type parameter must support.
#[derive(Debug, PartialEq, Eq)]
pub enum Bound {
    /// `AsRef<str>`
    AsRefStr,
    /// `AsRef<std::path::Path>`
    AsRefPath,
    /// `AsRef<[T]>` for the element type `T`
    AsRefSlice(Type),
    /// `IntoIterator<Item = T>` for the item type `T`
    IntoIterator(Type),
    /// `Into<ndarray::ArrayView1<'a, T>>` for the lifetime `a` and the element
    /// type `T`
    IntoArrayView1(String, Type),
}

/// The view of a [`Bound`].
pub enum BoundView {
    AsRefStr,
    AsRefPath,
    AsRefSlice(TypeView),
    IntoIterator(TypeView),
    IntoArrayView1(Seq<char>, TypeView),
}

impl View for Bound {
    type V = BoundView;

    open spec fn view(&self) -> BoundView {
        match self {
            Bound::AsRefStr => BoundView::AsRefStr,
            Bound::AsRefPath => BoundView::AsRefPath,
            Bound::AsRefSlice(ty) => BoundView::AsRefSlice(ty@),
            Bound::IntoIterator(ty) => BoundView::IntoIterator(ty@),
            Bound::IntoArrayView1(lifetime, ty) => BoundView::IntoArrayView1(lifetime@, ty@),
        }
    }
}

impl Clone for Bound {
    fn clone(&self) -> (copy: Self)
        ensures
            copy@ == self@,
    {
        match self {
            Bound::AsRefStr => Bound::AsRefStr,
            Bound::AsRefPath => Bound::AsRefPath,
            Bound::AsRefSlice(ty) => Bound::AsRefSlice(ty.clone()),
            Bound::IntoIterator(ty) => Bound::IntoIterator(ty.clone()),
            Bound::IntoArrayView1(lifetime, ty) => Bound::IntoArrayView1(
                lifetime.clone(),
                ty.clone(),
            ),
        }
    }
}

/// One predicate of a `where` clause.
#[derive(Debug, PartialEq, Eq)]
pub enum WherePredicate {
    /// A predicate that the function was written with, as source text.
    Verbatim(String),
    /// The type parameter `ty` with the bound that it must meet.
    Bounded { ty: String, bound: Bound },
}

/// The view of a [`WherePredicate`].
pub enum WherePredicateView {
    Verbatim(Seq<char>),
    Bounded { ty: Seq<char>, bound: BoundView },
}

impl View for WherePredicate {
    type V = WherePredicateView;

    open spec fn view(&self) -> WherePredicateView {
        match self {
            WherePredicate::Verbatim(text) => WherePredicateView::Verbatim(text@),
            WherePredicate::Bounded { ty, bound } => WherePredicateView::Bounded {
                ty: ty@,
                bound: bound@,
            },
        }
    }
}

impl Clone for WherePredicate {
    fn clone(&self) -> (copy: Self)
        ensures
            copy@ == self@,
    {
        match self {
            WherePredicate::Verbatim(text) => WherePredicate::Verbatim(text.clone()),
            WherePredicate::Bounded { ty, bound } => WherePredicate::Bounded {
                ty: ty.clone(),
                bound: bound.clone(),
            },
        }
    }
}

/// The method that turns a parameter of a generic type into its concrete form.
#[derive(Debug, Clone, Copy, PartialEq, Eq, Structural)]
pub enum Conversion {
    /// `.as_ref()`
    AsRef,
    /// `.into_iter()`
    IntoIter,
    /// `.into()`
    Into,
}

/// One statement of a function body.
#[derive(Debug, PartialEq, Eq)]
pub enum Stmt {
    /// A statement that the function was written with, as source text.
    Verbatim(String),
    /// `let ident = ident.conversion();`
    Rebind { ident: String, conversion: Conversion },
}

/// The view of a [`Stmt`].
pub enum StmtView {
    Verbatim(Seq<char>),
    Rebind { ident: Seq<char>, conversion: Conversion },
}

impl View for Stmt {
    type V = StmtView;

    open spec fn view(&self) -> StmtView {
        match self {
            Stmt::Verbatim(text) => StmtView::Verbatim(text@),
            Stmt::Rebind { ident, conversion } => StmtView::Rebind {
                ident: ident@,
                conversion: *conversion,
            },
        }
    }
}

impl Clone for Stmt {
    fn clone(&self) -> (copy: Self)
        ensures
            copy@ == self@,
    {
        match self {
            Stmt::Verbatim(text) => Stmt::Verbatim(text.clone()),
            Stmt::Rebind { ident, conversion } => Stmt::Rebind {
                ident: ident.clone(),
                conversion: *conversion,
            },
        }
    }
}

/// A pattern that binds one identifier, such as `s`, `mut s` or `s @ 1..=9`.
#[derive(Debug, PartialEq, Eq)]
pub struct PatIdent {
    /// Whether the pattern starts with `ref`.
    pub by_ref: bool,
    /// Whether the binding is `mut`.
    pub mutability: bool,
    pub ident: String,
    /// The pattern after `@`, as source text.
    pub subpat: Option<String>,
}

/// The view of a [`PatIdent`].
pub struct PatIdentView {
    pub by_ref: bool,
    pub mutability: bool,
    pub ident: Seq<char>,
    pub subpat: Option<Seq<char>>,
}

impl View for PatIdent {
    type V = PatIdentView;

    open spec fn view(&self) -> PatIdentView {
        PatIdentView {
            by_ref: self.by_ref,
            mutability: self.mutability,
            ident: self.ident@,
            subpat: match self.subpat {
                Some(text) => Some(text@),
                None => None,
            },
        }
    }
}

impl Clone for PatIdent {
    fn clone(&self) -> (copy: Self)
        ensures
            copy@ == self@,
    {
        PatIdent {
            by_ref: self.by_ref,
            mutability: self.mutability,
            ident: self.ident.clone(),
            subpat: match &self.subpat {
                Some(text) => Some(text.clone()),
                None => None,
            },
        }
    }
}

/// The pattern of a parameter.
#[derive(Debug, PartialEq, Eq)]
pub enum Pat {
    /// A pattern that binds one identifier.
    Ident(PatIdent),
    /// Any other pattern, as source text.
    Other(String),
}

/// The view of a [`Pat`].
pub enum PatView {
    Ident(PatIdentView),
    Other(Seq<char>),
}

impl View for Pat {
    type V = PatView;

    open spec fn view(&self) -> PatView {
        match self {
            Pat::Ident(pat_ident) => PatView::Ident(pat_ident@),
            Pat::Other(text) => PatView::Other(text@),
        }
    }
}

impl Clone for Pat {
    fn clone(&self) -> (copy: Self)
        ensures
            copy@ == self@,
    {
        match self {
            Pat::Ident(pat_ident) => Pat::Ident(pat_ident.clone()),
            Pat::Other(text) => Pat::Other(text.clone()),
        }
    }
}

/// A parameter that is written as a pattern, a colon and a type.
#[derive(Debug, PartialEq, Eq)]
pub struct PatType {
    /// The attributes of the parameter, as source text.
    pub attrs: Vec<String>,
    pub pat: Pat,
    pub ty: Type,
}

/// The view of a [`PatType`].
pub struct PatTypeView {
    pub attrs: Seq<Seq<char>>,
    pub pat: PatView,
    pub ty: TypeView,
}

impl View for PatType {
    type V = PatTypeView;

    open spec fn view(&self) -> PatTypeView {
        PatTypeView { attrs: views(self.attrs), pat: self.pat@, ty: self.ty@ }
    }
}

impl Clone for PatType {
    fn clone(&self) -> (copy: Self)
        ensures
            copy@ == self@,
    {
        PatType { attrs: clone_strings(&self.attrs), pat: self.pat.clone(), ty: self.ty.clone() }
    }
}

/// One parameter of a function.
#[derive(Debug, PartialEq, Eq)]
pub enum FnArg {
    /// The receiver, such as `&mut self`, as source text.
    Receiver(String),
    /// Any other parameter.
    Typed(PatType),
}

/// The view of a [`FnArg`].
pub enum FnArgView {
    Receiver(Seq<char>),
    Typed(PatTypeView),
}

impl View for FnArg {
    type V = FnArgView;

    open spec fn view(&self) -> FnArgView {
        match self {
            FnArg::Receiver(text) => FnArgView::Receiver(text@),
            FnArg::Typed(pat_type) => FnArgView::Typed(pat_type@),
        }
    }
}

impl Clone for FnArg {
    fn clone(&self) -> (copy: Self)
        ensures
            copy@ == self@,
    {
        match self {
            FnArg::Receiver(text) => FnArg::Receiver(text.clone()),
            FnArg::Typed(pat_type) => FnArg::Typed(pat_type.clone()),
        }
    }
}

/// The `where` clause of a function.
#[derive(Debug, PartialEq, Eq)]
pub struct WhereClause {
    pub predicates: Vec<WherePredicate>,
}

/// The view of a [`WhereClause`].
pub struct WhereClauseView {
    pub predicates: Seq<WherePredicateView>,
}

impl View for WhereClause {
    type V = WhereClauseView;

    open spec fn view(&self) -> WhereClauseView {
        WhereClauseView { predicates: views(self.predicates) }
    }
}

impl Clone for WhereClause {
    fn clone(&self) -> (copy: Self)
        ensures
            copy@ == self@,
    {
        WhereClause { predicates: clone_where_predicates(&self.predicates) }
    }
}

/// The generic parameters of a function and its `where` clause.
#[derive(Debug, PartialEq, Eq)]
pub struct Generics {
    pub params: Vec<GenericParam>,
    pub where_clause: Option<WhereClause>,
}

/// The view of [`Generics`].
pub struct GenericsView {
    pub params: Seq<GenericParamView>,
    pub where_clause: Option<WhereClauseView>,
}

impl View for Generics {
    type V = GenericsView;

    open spec fn view(&self) -> GenericsView {
        GenericsView {
            params: views(self.params),
            where_clause: match self.where_clause {
                Some(where_clause) => Some(where_clause@),
                None => None,
            },
        }
    }
}

impl Clone for Generics {
    fn clone(&self) -> (copy: Self)
        ensures
            copy@ == self@,
    {
        Generics {
            params: clone_generic_params(&self.params),
            where_clause: match &self.where_clause {
                Some(where_clause) => Some(where_clause.clone()),
                None => None,
            },
        }
    }
}

/// The signature of a function.
#[derive(Debug, PartialEq, Eq)]
pub struct Signature {
    /// What stands before `fn`, such as `const unsafe`, as source text.
    pub qualifiers: String,
    pub ident: String,
    pub generics: Generics,
    pub inputs: Vec<FnArg>,
    /// The variadic parameter, as source text.
    pub variadic: Option<String>,
    /// The return type, as source text.
    pub output: Option<String>,
}

/// The view of a [`Signature`].
pub struct SignatureView {
    pub qualifiers: Seq<char>,
    pub ident: Seq<char>,
    pub generics: GenericsView,
    pub inputs: Seq<FnArgView>,
    pub variadic: Option<Seq<char>>,
    pub output: Option<Seq<char>>,
}

impl View for Signature {
    type V = SignatureView;

    open spec fn view(&self) -> SignatureView {
        SignatureView {
            qualifiers: self.qualifiers@,
            ident: self.ident@,
            generics: self.generics@,
            inputs: views(self.inputs),
            variadic: match self.variadic {
                Some(text) => Some(text@),
                None => None,
            },
            output: match self.output {
                Some(text) => Some(text@),
                None => None,
            },
        }
    }
}

impl Clone for Signature {
    fn clone(&self) -> (copy: Self)
        ensures
            copy@ == self@,
    {
        Signature {
            qualifiers: self.qualifiers.clone(),
            ident: self.ident.clone(),
            generics: self.generics.clone(),
            inputs: clone_fn_args(&self.inputs),
            variadic: match &self.variadic {
                Some(text) => Some(text.clone()),
                None => None,
            },
            output: match &self.output {
                Some(text) => Some(text.clone()),
                None => None,
            },
        }
    }
}

/// The body of a function.
#[derive(Debug, PartialEq, Eq)]
pub struct Block {
    pub stmts: Vec<Stmt>,
}

/// The view of a [`Block`].
pub struct BlockView {
    pub stmts: Seq<StmtView>,
}

impl View for Block {
    type V = BlockView;

    open spec fn view(&self) -> BlockView {
        BlockView { stmts: views(self.stmts) }
    }
}

impl Clone for Block {
    fn clone(&self) -> (copy: Self)
        ensures
            copy@ == self@,
    {
        Block { stmts: clone_stmts(&self.stmts) }
    }
}

/// A function definition.
#[derive(Debug, PartialEq, Eq)]
pub struct ItemFn {
    /// The attributes of the function, as source text.
    pub attrs: Vec<String>,
    /// The visibility, such as `pub`, as source text.
    pub vis: String,
    pub sig: Signature,
    pub block: Block,
}

/// The view of an [`ItemFn`].
pub struct ItemFnView {
    pub attrs: Seq<Seq<char>>,
    pub vis: Seq<char>,
    pub sig: SignatureView,
    pub block: BlockView,
}

impl View for ItemFn {
    type V = ItemFnView;

    open spec fn view(&self) -> ItemFnView {
        ItemFnView {
            attrs: views(self.attrs),
            vis: self.vis@,
            sig: self.sig@,
            block: self.block@,
        }
    }
}

impl Clone for ItemFn {
    fn clone(&self) -> (copy: Self)
        ensures
            copy@ == self@,
    {
        ItemFn {
            attrs: clone_strings(&self.attrs),
            vis: self.vis.clone(),
            sig: self.sig.clone(),
            block: self.block.clone(),
        }
    }
}

/// The parameter that is written as an identifier, a colon and a type.
pub open spec fn typed_fn_arg(ident: Seq<char>, ty: TypeView) -> FnArgView {
    FnArgView::Typed(
        PatTypeView {
            attrs: Seq::empty(),
            pat: PatView::Ident(
                PatIdentView { by_ref: false, mutability: false, ident, subpat: None },
            ),
            ty,
        },
    )
}

/// The function with the given visibility, name, parameters, return type and
/// statements, and nothing else.
pub open spec fn plain_item_fn(
    vis: Seq<char>,
    ident: Seq<char>,
    inputs: Seq<FnArgView>,
    output: Option<Seq<char>>,
    stmts: Seq<StmtView>,
) -> ItemFnView {
    ItemFnView {
        attrs: Seq::empty(),
        vis,
        sig: SignatureView {
            qualifiers: Seq::empty(),
            ident,
            generics: GenericsView { params: Seq::empty(), where_clause: None },
            inputs,
            variadic: None,
            output,
        },
        block: BlockView { stmts },
    }
}

impl FnArg {
    /// The parameter that is written as an identifier, a colon and a type, such
    /// as `s: AnyString`.
    pub fn typed(ident: &str, ty: Type) -> (fn_arg: FnArg)
        ensures
            fn_arg@ == typed_fn_arg(ident@, ty@),
    {
        let pat_type = PatType {
            attrs: Vec::new(),
            pat: Pat::Ident(
                PatIdent {
                    by_ref: false,
                    mutability: false,
                    ident: String::from_str(ident),
                    subpat: None,
                },
            ),
            ty,
        };
        assert(pat_type@.attrs =~= Seq::<Seq<char>>::empty());
        FnArg::Typed(pat_type)
    }
}

impl Stmt {
    /// The statement that is written as `text`.
    pub fn verbatim(text: &str) -> (stmt: Stmt)
        ensures
            stmt@ == StmtView::Verbatim(text@),
    {
        Stmt::Verbatim(String::from_str(text))
    }
}

impl ItemFn {
    /// The function with the given visibility, name, parameters, return type and
    /// statements: no attributes, no qualifiers, no generic parameters and no
    /// `where` clause.
    pub fn new(
        vis: &str,
        ident: &str,
        inputs: Vec<FnArg>,
        output: Option<&str>,
        stmts: Vec<Stmt>,
    ) -> (item_fn: ItemFn)
        ensures
            item_fn@ == plain_item_fn(
                vis@,
                ident@,
                views(inputs),
                match output {
                    Some(text) => Some(text@),
                    None => None,
                },
                views(stmts),
            ),
    {
        let item_fn = ItemFn {
            attrs: Vec::new(),
            vis: String::from_str(vis),
            sig: Signature {
                qualifiers: String::new(),
                ident: String::from_str(ident),
                generics: Generics { params: Vec::new(), where_clause: None },
                inputs,
                variadic: None,
                output: match output {
                    Some(text) => Some(String::from_str(text)),
                    None => None,
                },
            },
            block: Block { stmts },
        };
        proof {
            assert(item_fn@.attrs =~= Seq::<Seq<char>>::empty());
            assert(item_fn@.sig.generics.params =~= Seq::<GenericParamView>::empty());
        }
        item_fn
    }
}

/// A copy of `strings` with the same views.
pub fn clone_strings(strings: &Vec<String>) -> (copy: Vec<String>)
    ensures
        views(copy) == views(*strings),
{
    let mut copy: Vec<String> = Vec::new();
    let mut i: usize = 0;
    while i < strings.len()
        invariant
            i <= strings.len(),
            copy@.len() == i,
            forall|j: int| 0 <= j < i ==> copy@[j]@ == strings@[j]@,
        decreases strings.len() - i,
    {
        copy.push(strings[i].clone());
        i += 1;
    }
    assert(views(copy) =~= views(*strings));
    copy
}

/// A copy of `params` with the same views.
pub fn clone_generic_params(params: &Vec<GenericParam>) -> (copy: Vec<GenericParam>)
    ensures
        views(copy) == views(*params),
{
    let mut copy: Vec<GenericParam> = Vec::new();
    let mut i: usize = 0;
    while i < params.len()
        invariant
            i <= params.len(),
            copy@.len() == i,
            forall|j: int| 0 <= j < i ==> copy@[j]@ == params@[j]@,
        decreases params.len() - i,
    {
        copy.push(params[i].clone());
        i += 1;
    }
    assert(views(copy) =~= views(*params));
    copy
}

/// A copy of `predicates` with the same views.
pub fn clone_where_predicates(predicates: &Vec<WherePredicate>) -> (copy: Vec<WherePredicate>)
    ensures
        views(copy) == views(*predicates),
{
    let mut copy: Vec<WherePredicate> = Vec::new();
    let mut i: usize = 0;
    while i < predicates.len()
        invariant
            i <= predicates.len(),
            copy@.len() == i,
            forall|j: int| 0 <= j < i ==> copy@[j]@ == predicates@[j]@,
        decreases predicates.len() - i,
    {
        copy.push(predicates[i].clone());
        i += 1;
    }
    assert(views(copy) =~= views(*predicates));
    copy
}

/// A copy of `stmts` with the same views.
pub fn clone_stmts(stmts: &Vec<Stmt>) -> (copy: Vec<Stmt>)
    ensures
        views(copy) == views(*stmts),
{
    let mut copy: Vec<Stmt> = Vec::new();
    let mut i: usize = 0;
    while i < stmts.len()
        invariant
            i <= stmts.len(),
            copy@.len() == i,
            forall|j: int| 0 <= j < i ==> copy@[j]@ == stmts@[j]@,
        decreases stmts.len() - i,
    {
        copy.push(stmts[i].clone());
        i += 1;
    }
    assert(views(copy) =~= views(*stmts));
    copy
}

/// A copy of `fn_args` with the same views.
pub fn clone_fn_args(fn_args: &Vec<FnArg>) -> (copy: Vec<FnArg>)
    ensures
        views(copy) == views(*fn_args),
{
    let mut copy: Vec<FnArg> = Vec::new();
    let mut i: usize = 0;
    while i < fn_args.len()
        invariant
            i <= fn_args.len(),
            copy@.len() == i,
            forall|j: int| 0 <= j < i ==> copy@[j]@ == fn_args@[j]@,
        decreases fn_args.len() - i,
    {
        copy.push(fn_args[i].clone());
        i += 1;
    }
    assert(views(copy) =~= views(*fn_args));
    copy
}

} // verus!
