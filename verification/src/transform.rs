//! The rewriting of a whole function: every parameter in turn, and then the new
//! signature and body.

use crate::error::{Error, ErrorView};
use crate::fold::{advanced, any_stmt, fold_type, result_view, DeltaPatType, Folded};
use crate::item::{
    clone_fn_args, clone_generic_params, clone_stmts, clone_strings, clone_where_predicates,
    option_view, views, Block, BlockView, FnArg, FnArgView, GenericParam, GenericParamView,
    Generics, GenericsView, ItemFn, ItemFnView, Pat, PatIdent, PatIdentView, PatType, PatTypeView,
    PatView, Signature, SignatureView, Stmt, StmtView, WhereClause, WhereClauseView,
    WherePredicate, WherePredicateView,
};
use crate::special::Special;
use crate::suffix::{decimal_suffixes, simple_suffix_iter_factory, SuffixIter};
use crate::syntax::{Type, TypeView};
use crate::uuid_generator::{is_hyphenated_uuid_v4, replaced, UuidGenerator};
use vstd::prelude::*;

verus! {

/// The identifier and the declaration of a parameter that is rewritten: one that is
/// written as an identifier, a colon and a path. The receiver, a parameter with
/// another pattern and a parameter whose type is not a path are left as they are.
pub open spec fn normal_fn_arg(fn_arg: FnArgView) -> Option<(PatIdentView, PatTypeView)> {
    match fn_arg {
        FnArgView::Typed(pat_type) => match (pat_type.pat, pat_type.ty) {
            (PatView::Ident(pat_ident), TypeView::Path(_)) => Some((pat_ident, pat_type)),
            _ => None,
        },
        FnArgView::Receiver(_) => None,
    }
}

/// The rewriting of one parameter: the new parameter, and the statement for it if
/// its own type was a placeholder.
pub open spec fn delta_fn_arg(fn_arg: FnArgView, names: spec_fn(nat) -> Seq<char>, k: nat) -> Folded<
    (FnArgView, Option<StmtView>),
> {
    match normal_fn_arg(fn_arg) {
        None => Folded::done((fn_arg, None), k),
        Some((pat_ident, pat_type)) => {
            let folded = fold_type(pat_type.ty, names, k);
            folded.with(
                match folded.result {
                    Ok((ty, last_special)) => Ok(
                        (
                            FnArgView::Typed(
                                PatTypeView { attrs: pat_type.attrs, pat: pat_type.pat, ty },
                            ),
                            any_stmt(last_special, pat_ident),
                        ),
                    ),
                    Err(error) => Err(error),
                },
            )
        },
    }
}

/// The rewriting of parameters, from the first to the last.
pub open spec fn delta_fn_args(
    fn_args: Seq<FnArgView>,
    names: spec_fn(nat) -> Seq<char>,
    k: nat,
) -> Folded<Seq<(FnArgView, Option<StmtView>)>>
    decreases fn_args.len(),
{
    if fn_args.len() == 0 {
        Folded::done(Seq::empty(), k)
    } else {
        let first = delta_fn_arg(fn_args[0], names, k);
        match first.result {
            Err(error) => first.with(Err(error)),
            Ok(delta) => {
                let rest = delta_fn_args(fn_args.drop_first(), names, first.next);
                first.followed_by(
                    rest.with(
                        match rest.result {
                            Ok(deltas) => Ok(seq![delta] + deltas),
                            Err(error) => Err(error),
                        },
                    ),
                )
            },
        }
    }
}

/// The new parameters, in the order of the parameters.
pub open spec fn new_fn_args(deltas: Seq<(FnArgView, Option<StmtView>)>) -> Seq<FnArgView> {
    deltas.map_values(|delta: (FnArgView, Option<StmtView>)| delta.0)
}

/// The new statements: the statement of the last parameter that has one comes
/// first, that of the first such parameter comes last.
pub open spec fn new_stmts(deltas: Seq<(FnArgView, Option<StmtView>)>) -> Seq<StmtView>
    decreases deltas.len(),
{
    if deltas.len() == 0 {
        Seq::empty()
    } else {
        match deltas.last().1 {
            Some(stmt) => seq![stmt] + new_stmts(deltas.drop_last()),
            None => new_stmts(deltas.drop_last()),
        }
    }
}

/// The predicates of the `where` clause of a function; none where it has no such
/// clause.
pub open spec fn where_predicates_of(item_fn: ItemFnView) -> Seq<WherePredicateView> {
    match item_fn.sig.generics.where_clause {
        Some(where_clause) => where_clause.predicates,
        None => Seq::empty(),
    }
}

/// The `where` clause with the given predicates; none where there are no
/// predicates.
pub open spec fn where_clause_of(predicates: Seq<WherePredicateView>) -> Option<WhereClauseView> {
    if predicates.len() == 0 {
        None
    } else {
        Some(WhereClauseView { predicates })
    }
}

/// The function `item_fn` with other parameters, generic parameters, predicates and
/// statements. Everything else stays as it is.
pub open spec fn with_parts(
    item_fn: ItemFnView,
    fn_args: Seq<FnArgView>,
    generic_params: Seq<GenericParamView>,
    where_predicates: Seq<WherePredicateView>,
    stmts: Seq<StmtView>,
) -> ItemFnView {
    ItemFnView {
        attrs: item_fn.attrs,
        vis: item_fn.vis,
        sig: SignatureView {
            qualifiers: item_fn.sig.qualifiers,
            ident: item_fn.sig.ident,
            generics: GenericsView {
                params: generic_params,
                where_clause: where_clause_of(where_predicates),
            },
            inputs: fn_args,
            variadic: item_fn.sig.variadic,
            output: item_fn.sig.output,
        },
        block: BlockView { stmts },
    }
}

/// The rewriting of a function.
///
/// Its parameters are rewritten from the first to the last. The new function has
/// the new parameters; its generic parameters are the old ones followed by those
/// that were added; its predicates are the old ones followed by those that were
/// added; and its body is the new statements followed by the old ones. The first
/// placeholder that cannot be rewritten stops everything with its error.
pub open spec fn transform(item_fn: ItemFnView, names: spec_fn(nat) -> Seq<char>, k: nat) -> Folded<
    ItemFnView,
> {
    let deltas = delta_fn_args(item_fn.sig.inputs, names, k);
    deltas.with(
        match deltas.result {
            Ok(deltas_done) => Ok(
                with_parts(
                    item_fn,
                    new_fn_args(deltas_done),
                    item_fn.sig.generics.params + deltas.generic_params,
                    where_predicates_of(item_fn) + deltas.where_predicates,
                    new_stmts(deltas_done) + item_fn.block.stmts,
                ),
            ),
            Err(error) => Err(error),
        },
    )
}

/// The function `fn hello_world() { println!("Hello, world!"); }`.
pub open spec fn hello_world() -> ItemFnView {
    ItemFnView {
        attrs: Seq::empty(),
        vis: Seq::empty(),
        sig: SignatureView {
            qualifiers: Seq::empty(),
            ident: "hello_world"@,
            generics: GenericsView { params: Seq::empty(), where_clause: None },
            inputs: Seq::empty(),
            variadic: None,
            output: None,
        },
        block: BlockView { stmts: seq![StmtView::Verbatim("println!(\"Hello, world!\");"@)] },
    }
}

/// What the rewriting of one parameter adds to a function: the new parameter, the
/// generic parameters and predicates for the placeholders in its type, and the
/// statement that gives the parameter its concrete form.
#[derive(Debug, PartialEq, Eq)]
pub struct DeltaFnArg {
    pub fn_arg: FnArg,
    pub generic_params: Vec<GenericParam>,
    pub where_predicates: Vec<WherePredicate>,
    pub stmt: Option<Stmt>,
}

impl DeltaFnArg {
    /// Whether `self` holds what `folded` says.
    pub open spec fn holds<T>(
        self,
        folded: Folded<T>,
        fn_arg: FnArgView,
        stmt: Option<StmtView>,
    ) -> bool {
        &&& self.fn_arg@ == fn_arg
        &&& option_view(self.stmt) == stmt
        &&& views(self.generic_params) == folded.generic_params
        &&& views(self.where_predicates) == folded.where_predicates
    }

    /// Rewrites one parameter.
    ///
    /// A parameter that is written as an identifier, a colon and a path has every
    /// placeholder in its type replaced, and gets a statement if the type itself
    /// was a placeholder. Any other parameter is left as it is.
    pub fn new<S: SuffixIter>(fn_arg: &FnArg, suffix_iter: &mut S) -> (result: Result<
        DeltaFnArg,
        Error,
    >)
        requires
            old(suffix_iter).wf(),
        ensures
            ({
                let folded = delta_fn_arg(
                    fn_arg@,
                    old(suffix_iter).names(),
                    old(suffix_iter).position(),
                );
                &&& advanced(*final(suffix_iter), *old(suffix_iter), folded.next)
                &&& match result {
                    Ok(delta) => folded.result matches Ok((new_fn_arg, stmt)) && delta.holds(
                        folded,
                        new_fn_arg,
                        stmt,
                    ),
                    Err(error) => folded.result == Err::<(FnArgView, Option<StmtView>), ErrorView>(
                        error@,
                    ),
                }
            }),
    {
        match DeltaFnArg::is_normal_fn_arg(fn_arg) {
            Some((pat_ident, pat_type)) => DeltaFnArg::replace_any_specials(
                pat_type,
                pat_ident,
                suffix_iter,
            ),
            None => {
                let delta = DeltaFnArg {
                    fn_arg: fn_arg.clone(),
                    generic_params: Vec::new(),
                    where_predicates: Vec::new(),
                    stmt: None,
                };
                proof {
                    assert(views(delta.generic_params) =~= Seq::<GenericParamView>::empty());
                    assert(views(delta.where_predicates) =~= Seq::<WherePredicateView>::empty());
                }
                Ok(delta)
            },
        }
    }

    /// The identifier and the declaration of a parameter that is written as an
    /// identifier, a colon and a path; `None` for the receiver and for a parameter
    /// with another pattern or a type that is not a path.
    pub fn is_normal_fn_arg(fn_arg: &FnArg) -> (normal: Option<(&PatIdent, &PatType)>)
        ensures
            match normal {
                Some((pat_ident, pat_type)) => Some((pat_ident@, pat_type@)),
                None => None,
            } == normal_fn_arg(fn_arg@),
            normal matches Some((pat_ident, pat_type)) ==> pat_type.ty is Path,
    {
        if let FnArg::Typed(pat_type) = fn_arg {
            if let Pat::Ident(pat_ident) = &pat_type.pat {
                if let Type::Path(_) = &pat_type.ty {
                    return Some((pat_ident, pat_type));
                }
            }
        }
        None
    }

    /// Replaces every placeholder in the type of a parameter, and gives the new
    /// parameter with the definitions of the type parameters that were added, and
    /// with the statement for the parameter if its own type was a placeholder.
    pub fn replace_any_specials<S: SuffixIter>(
        old_pat_type: &PatType,
        pat_ident: &PatIdent,
        suffix_iter: &mut S,
    ) -> (result: Result<DeltaFnArg, Error>)
        requires
            old(suffix_iter).wf(),
        ensures
            ({
                let folded = fold_type(
                    old_pat_type.ty@,
                    old(suffix_iter).names(),
                    old(suffix_iter).position(),
                );
                &&& advanced(*final(suffix_iter), *old(suffix_iter), folded.next)
                &&& match result {
                    Ok(delta) => folded.result matches Ok((ty, last_special)) && delta.holds(
                        folded,
                        FnArgView::Typed(
                            PatTypeView {
                                attrs: old_pat_type@.attrs,
                                pat: old_pat_type@.pat,
                                ty,
                            },
                        ),
                        any_stmt(last_special, pat_ident@),
                    ),
                    Err(error) => folded.result == Err::<(TypeView, Option<Special>), ErrorView>(
                        error@,
                    ),
                }
            }),
    {
        let mut delta_pat_type = DeltaPatType::new();
        proof {
            assert(views(delta_pat_type.generic_params) =~= Seq::<GenericParamView>::empty());
            assert(views(delta_pat_type.where_predicates) =~= Seq::<WherePredicateView>::empty());
        }
        match delta_pat_type.fold_type(&old_pat_type.ty, suffix_iter) {
            Ok((ty, last_special)) => {
                let new_pat_type = PatType {
                    attrs: clone_strings(&old_pat_type.attrs),
                    pat: old_pat_type.pat.clone(),
                    ty,
                };
                let ghost folded = fold_type(
                    old_pat_type.ty@,
                    old(suffix_iter).names(),
                    old(suffix_iter).position(),
                );
                proof {
                    assert(Seq::<GenericParamView>::empty() + folded.generic_params
                        =~= folded.generic_params);
                    assert(Seq::<WherePredicateView>::empty() + folded.where_predicates
                        =~= folded.where_predicates);
                }
                Ok(
                    DeltaFnArg {
                        fn_arg: FnArg::Typed(new_pat_type),
                        stmt: DeltaPatType::generate_any_stmt(last_special, pat_ident),
                        generic_params: delta_pat_type.generic_params,
                        where_predicates: delta_pat_type.where_predicates,
                    },
                )
            },
            Err(error) => Err(error),
        }
    }
}

/// A function that is being rewritten: the function as it was, and the parameters,
/// generic parameters, predicates and statements of the new function as far as they
/// are known.
#[derive(Debug, PartialEq, Eq)]
pub struct ItemFnAcc<'a> {
    pub old_fn: &'a ItemFn,
    pub fn_args: Vec<FnArg>,
    pub generic_params: Vec<GenericParam>,
    pub where_predicates: Vec<WherePredicate>,
    pub stmts: Vec<Stmt>,
}

impl<'a> ItemFnAcc<'a> {
    /// The start: no parameters yet, and the generic parameters, predicates and
    /// statements of the function as it was.
    pub fn init(item_fn: &'a ItemFn) -> (acc: ItemFnAcc<'a>)
        ensures
            acc.old_fn@ == item_fn@,
            views(acc.fn_args) == Seq::<FnArgView>::empty(),
            views(acc.generic_params) == item_fn@.sig.generics.params,
            views(acc.where_predicates) == where_predicates_of(item_fn@),
            views(acc.stmts) == item_fn@.block.stmts,
    {
        let acc = ItemFnAcc {
            old_fn: item_fn,
            fn_args: Vec::new(),
            generic_params: clone_generic_params(&item_fn.sig.generics.params),
            where_predicates: ItemFnAcc::extract_where_predicates(item_fn),
            stmts: clone_stmts(&item_fn.block.stmts),
        };
        assert(views(acc.fn_args) =~= Seq::<FnArgView>::empty());
        acc
    }

    /// The predicates of the `where` clause of a function; none where it has no
    /// such clause.
    pub fn extract_where_predicates(item_fn: &ItemFn) -> (predicates: Vec<WherePredicate>)
        ensures
            views(predicates) == where_predicates_of(item_fn@),
    {
        match &item_fn.sig.generics.where_clause {
            Some(where_clause) => clone_where_predicates(&where_clause.predicates),
            None => {
                let predicates: Vec<WherePredicate> = Vec::new();
                assert(views(predicates) =~= Seq::<WherePredicateView>::empty());
                predicates
            },
        }
    }

    /// Takes in what the rewriting of the next parameter adds: the parameter goes
    /// to the end of the parameters, the generic parameters and the predicates go to
    /// the end of theirs, and the statement goes to the front of the statements.
    pub fn fold(self, delta: DeltaFnArg) -> (acc: ItemFnAcc<'a>)
        ensures
            acc.old_fn == self.old_fn,
            views(acc.fn_args) == views(self.fn_args).push(delta.fn_arg@),
            views(acc.generic_params) == views(self.generic_params) + views(
                delta.generic_params,
            ),
            views(acc.where_predicates) == views(self.where_predicates) + views(
                delta.where_predicates,
            ),
            views(acc.stmts) == match delta.stmt {
                Some(stmt) => seq![stmt@] + views(self.stmts),
                None => views(self.stmts),
            },
    {
        let mut acc = self;
        let mut delta = delta;
        let ghost before = acc;
        let ghost added = delta;
        acc.fn_args.push(delta.fn_arg);
        acc.generic_params.append(&mut delta.generic_params);
        acc.where_predicates.append(&mut delta.where_predicates);
        match delta.stmt {
            Some(stmt) => {
                acc.stmts.insert(0, stmt);
                assert(views(acc.stmts) =~= seq![stmt@] + views(before.stmts));
            },
            None => {},
        }
        proof {
            assert(views(acc.fn_args) =~= views(before.fn_args).push(added.fn_arg@));
            assert(views(acc.generic_params) =~= views(before.generic_params) + views(
                added.generic_params,
            ));
            assert(views(acc.where_predicates) =~= views(before.where_predicates) + views(
                added.where_predicates,
            ));
        }
        acc
    }

    /// The new function: the function as it was, with the parameters, generic
    /// parameters, predicates and statements that were gathered.
    pub fn to_item_fn(&self) -> (item_fn: ItemFn)
        ensures
            item_fn@ == with_parts(
                self.old_fn@,
                views(self.fn_args),
                views(self.generic_params),
                views(self.where_predicates),
                views(self.stmts),
            ),
    {
        ItemFn {
            attrs: clone_strings(&self.old_fn.attrs),
            vis: self.old_fn.vis.clone(),
            sig: Signature {
                qualifiers: self.old_fn.sig.qualifiers.clone(),
                ident: self.old_fn.sig.ident.clone(),
                generics: self.to_generics(),
                inputs: clone_fn_args(&self.fn_args),
                variadic: match &self.old_fn.sig.variadic {
                    Some(text) => Some(text.clone()),
                    None => None,
                },
                output: match &self.old_fn.sig.output {
                    Some(text) => Some(text.clone()),
                    None => None,
                },
            },
            block: Block { stmts: clone_stmts(&self.stmts) },
        }
    }

    /// The generic parameters that were gathered, with the `where` clause.
    pub fn to_generics(&self) -> (generics: Generics)
        ensures
            generics@ == (GenericsView {
                params: views(self.generic_params),
                where_clause: where_clause_of(views(self.where_predicates)),
            }),
    {
        Generics {
            params: clone_generic_params(&self.generic_params),
            where_clause: self.to_where_clause(),
        }
    }

    /// The `where` clause with the predicates that were gathered; `None` where
    /// there are none.
    pub fn to_where_clause(&self) -> (where_clause: Option<WhereClause>)
        ensures
            option_view(where_clause) == where_clause_of(views(self.where_predicates)),
    {
        if self.where_predicates.is_empty() {
            None
        } else {
            Some(WhereClause { predicates: clone_where_predicates(&self.where_predicates) })
        }
    }
}

/// Rewrites a function, with suffixes drawn from `suffix_iter`.
///
/// Every placeholder in the type of a parameter is replaced by a fresh type
/// parameter, which is added to the generic parameters with a predicate in the
/// `where` clause. A parameter whose own type is a placeholder gets a statement at
/// the top of the body that turns it into its concrete form. The first placeholder
/// that cannot be rewritten stops the rewriting, and its error is returned.
pub fn transform_fn<S: SuffixIter>(old_fn: ItemFn, suffix_iter: &mut S) -> (result: Result<
    ItemFn,
    Error,
>)
    requires
        old(suffix_iter).wf(),
    ensures
        ({
            let transformed = transform(
                old_fn@,
                old(suffix_iter).names(),
                old(suffix_iter).position(),
            );
            &&& advanced(*final(suffix_iter), *old(suffix_iter), transformed.next)
            &&& result_view(result) == transformed.result
        }),
{
    let ghost names = suffix_iter.names();
    let ghost all = old_fn@.sig.inputs;
    let ghost total = delta_fn_args(all, names, suffix_iter.position());
    let ghost mut done: Seq<(FnArgView, Option<StmtView>)> = Seq::empty();
    let ghost mut generic_params: Seq<GenericParamView> = Seq::empty();
    let ghost mut where_predicates: Seq<WherePredicateView> = Seq::empty();
    let mut acc = ItemFnAcc::init(&old_fn);
    let mut i: usize = 0;
    proof {
        assert(all.skip(0) =~= all);
        assert(generic_params + total.generic_params =~= total.generic_params);
        assert(where_predicates + total.where_predicates =~= total.where_predicates);
        if total.result is Ok {
            assert(done + total.result->Ok_0 =~= total.result->Ok_0);
        }
        assert(views(acc.generic_params) + generic_params =~= views(acc.generic_params));
        assert(views(acc.where_predicates) + where_predicates =~= views(acc.where_predicates));
        assert(new_fn_args(done) =~= Seq::<FnArgView>::empty());
        assert(new_stmts(done) + old_fn@.block.stmts =~= old_fn@.block.stmts);
    }
    while i < old_fn.sig.inputs.len()
        invariant
            i <= old_fn.sig.inputs.len(),
            all == old_fn@.sig.inputs,
            all.len() == old_fn.sig.inputs.len(),
            names == old(suffix_iter).names(),
            total == delta_fn_args(all, names, old(suffix_iter).position()),
            suffix_iter.wf(),
            suffix_iter.names() == names,
            acc.old_fn@ == old_fn@,
            views(acc.fn_args) == new_fn_args(done),
            views(acc.generic_params) == old_fn@.sig.generics.params + generic_params,
            views(acc.where_predicates) == where_predicates_of(old_fn@) + where_predicates,
            views(acc.stmts) == new_stmts(done) + old_fn@.block.stmts,
            ({
                let rest = delta_fn_args(all.skip(i as int), names, suffix_iter.position());
                &&& total.next == rest.next
                &&& total.generic_params == generic_params + rest.generic_params
                &&& total.where_predicates == where_predicates + rest.where_predicates
                &&& total.result == match rest.result {
                    Ok(deltas) => Ok(done + deltas),
                    Err(error) => Err(error),
                }
            }),
        decreases old_fn.sig.inputs.len() - i,
    {
        let ghost rest = all.skip(i as int);
        let ghost first = delta_fn_arg(all[i as int], names, suffix_iter.position());
        proof {
            assert(rest[0] == all[i as int]);
            assert(rest.drop_first() =~= all.skip(i + 1));
        }
        match DeltaFnArg::new(&old_fn.sig.inputs[i], suffix_iter) {
            Err(error) => {
                return Err(error);
            },
            Ok(delta) => {
                acc = acc.fold(delta);
                proof {
                    let later = delta_fn_args(all.skip(i + 1), names, first.next);
                    let one = first.result->Ok_0;
                    let longer = done.push(one);
                    assert(generic_params + (first.generic_params + later.generic_params) =~= (
                    generic_params + first.generic_params) + later.generic_params);
                    assert(where_predicates + (first.where_predicates + later.where_predicates)
                        =~= (where_predicates + first.where_predicates)
                        + later.where_predicates);
                    if later.result is Ok {
                        let tail = later.result->Ok_0;
                        assert(done + (seq![one] + tail) =~= longer + tail);
                    }
                    assert(views(acc.generic_params) =~= old_fn@.sig.generics.params + (
                    generic_params + first.generic_params));
                    assert(views(acc.where_predicates) =~= where_predicates_of(old_fn@) + (
                    where_predicates + first.where_predicates));
                    assert(new_fn_args(longer) =~= new_fn_args(done).push(one.0));
                    assert(longer.drop_last() =~= done);
                    assert(longer.last() == one);
                    assert(views(acc.stmts) =~= new_stmts(longer) + old_fn@.block.stmts);
                    done = longer;
                    generic_params = generic_params + first.generic_params;
                    where_predicates = where_predicates + first.where_predicates;
                }
            },
        }
        i += 1;
    }
    proof {
        assert(all.skip(i as int) =~= Seq::<FnArgView>::empty());
        assert(done + Seq::<(FnArgView, Option<StmtView>)>::empty() =~= done);
        assert(generic_params + Seq::<GenericParamView>::empty() =~= generic_params);
        assert(where_predicates + Seq::<WherePredicateView>::empty() =~= where_predicates);
    }
    Ok(acc.to_item_fn())
}

/// Rewrites a function, with the suffixes `0`, `1`, `2` and so on.
///
/// The type parameter for a placeholder is named after it, so the first
/// `AnyString` that is reached becomes `AnyString0`.
pub fn anyinput_core(input: ItemFn) -> (result: Result<ItemFn, Error>)
    ensures
        result_view(result) == transform(input@, decimal_suffixes(), 0).result,
{
    let mut suffix_iter = simple_suffix_iter_factory();
    transform_fn(input, &mut suffix_iter)
}

/// Rewrites a function, with suffixes that hold a fresh random UUID, such as
/// `U67e55044_10b1_426f_9247_bb680e5fe0c8_0`.
///
/// The UUID differs from call to call; the result is the rewriting for the UUID
/// that was drawn.
pub fn input_special(input: ItemFn) -> (result: Result<ItemFn, Error>)
    ensures
        exists|hyphenated: Seq<char>|
            is_hyphenated_uuid_v4(hyphenated) && result_view(result) == transform(
                input@,
                UuidGenerator::suffixes(replaced(hyphenated, '-', '_')),
                0,
            ).result,
{
    let mut generator = UuidGenerator::new();
    let ghost hyphenated = choose|hyphenated: Seq<char>|
        is_hyphenated_uuid_v4(hyphenated) && generator.uuid() == replaced(hyphenated, '-', '_');
    let result = transform_fn(input, &mut generator);
    proof {
        assert(is_hyphenated_uuid_v4(hyphenated) && result_view(result) == transform(
            input@,
            UuidGenerator::suffixes(replaced(hyphenated, '-', '_')),
            0,
        ).result);
    }
    result
}

/// The function `fn hello_world() { println!("Hello, world!"); }`, whatever
/// function is given.
pub fn transform_fn_sample(_item_fn: ItemFn) -> (item_fn: ItemFn)
    ensures
        item_fn@ == hello_world(),
{
    let mut stmts: Vec<Stmt> = Vec::new();
    stmts.push(Stmt::Verbatim(String::from_str("println!(\"Hello, world!\");")));
    let item_fn = ItemFn {
        attrs: Vec::new(),
        vis: String::new(),
        sig: Signature {
            qualifiers: String::new(),
            ident: String::from_str("hello_world"),
            generics: Generics { params: Vec::new(), where_clause: None },
            inputs: Vec::new(),
            variadic: None,
            output: None,
        },
        block: Block { stmts },
    };
    proof {
        assert(item_fn@.attrs =~= hello_world().attrs);
        assert(item_fn@.sig.generics.params =~= hello_world().sig.generics.params);
        assert(item_fn@.sig.inputs =~= hello_world().sig.inputs);
        assert(item_fn@.block.stmts =~= hello_world().block.stmts);
    }
    item_fn
}

/// A sample of a rewriting: it gives the function
/// `fn hello_world() { println!("Hello, world!"); }`, whatever function is given.
pub fn anyinput_core_sample(input: ItemFn) -> (item_fn: ItemFn)
    ensures
        item_fn@ == hello_world(),
{
    transform_fn_sample(input)
}

} // verus!
