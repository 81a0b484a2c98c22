//! What holds of every rewriting.

use crate::counter::lemma_decimal_digits;
use crate::error::ErrorView;
use crate::fold::{
    any_stmt, fold_path_segment, fold_piece, fold_pieces, fold_qself, fold_segments, fold_type,
    fold_type_path, generic_name, Folded,
};
use crate::item::{
    BoundView, FnArgView, GenericParamView, ItemFnView, StmtView, WhereClauseView,
    WherePredicateView,
};
use crate::order::{
    bounded_type, bounded_types_of, draws, generic_names_for, in_order, lemma_in_order_followed_by,
    lemma_one_predicate_for_each_type_parameter, lemma_positions_increase, lemma_type_in_order,
    lemma_type_path_in_order, placeholder, position_of, specials_in_type,
    specials_in_type_path, specials_inside_type_path, top_level_special, type_params_of,
};
use crate::special::{lemma_name_named, lemma_named_name, lemma_names_revealed, Special};
use crate::suffix::{decimal_suffixes, SuffixIter};
use crate::syntax::{
    ident_path, PathArgumentsView, PathSegmentView, PieceView, TypePathView, TypeView,
};
use crate::transform::{
    delta_fn_arg, delta_fn_args, new_fn_args, new_stmts, normal_fn_arg, transform,
    where_predicates_of, with_parts,
};
use vstd::prelude::*;

verus! {

/// Whether no path in a type is named after a placeholder.
pub open spec fn plain_type(ty: TypeView) -> bool
    decreases ty,
{
    match ty {
        TypeView::Path(type_path) => plain_type_path(type_path),
        TypeView::Other(pieces) => plain_pieces(pieces),
    }
}

/// Whether no path in any of the pieces is named after a placeholder.
pub open spec fn plain_pieces(pieces: Seq<PieceView>) -> bool
    decreases pieces,
{
    forall|i: int| 0 <= i < pieces.len() ==> plain_piece(#[trigger] pieces[i])
}

/// Whether no path in a piece is named after a placeholder.
pub open spec fn plain_piece(piece: PieceView) -> bool
    decreases piece,
{
    match piece {
        PieceView::Text(_) => true,
        PieceView::Type(ty) => plain_type(ty),
        PieceView::Group(pieces) => plain_pieces(pieces),
    }
}

/// Whether a path is not named after a placeholder and holds no path that is.
pub open spec fn plain_type_path(type_path: TypePathView) -> bool
    decreases type_path,
{
    &&& match type_path.qself {
        Some(pieces) => plain_pieces(pieces),
        None => true,
    }
    &&& plain_segments(type_path.segments)
    &&& Special::resembled(type_path) is None
}

/// Whether no path in the arguments of any of the segments is named after a
/// placeholder.
pub open spec fn plain_segments(segments: Seq<PathSegmentView>) -> bool
    decreases segments,
{
    forall|i: int| 0 <= i < segments.len() ==> plain_path_segment(#[trigger] segments[i])
}

/// Whether no path in the arguments of a segment is named after a placeholder.
pub open spec fn plain_path_segment(segment: PathSegmentView) -> bool
    decreases segment,
{
    match segment.arguments {
        PathArgumentsView::Empty => true,
        PathArgumentsView::AngleBracketed(pieces) => plain_pieces(pieces),
        PathArgumentsView::Parenthesized(pieces) => plain_pieces(pieces),
    }
}

/// Whether no parameter that is rewritten has a type with a path that is named
/// after a placeholder.
pub open spec fn plain_fn_args(fn_args: Seq<FnArgView>) -> bool {
    forall|i: int|
        0 <= i < fn_args.len() ==> (#[trigger] normal_fn_arg(fn_args[i]) matches Some(
            (_, pat_type),
        ) ==> plain_type(pat_type.ty))
}

/// A type without placeholders is left as it is: nothing is added and no suffix is
/// drawn.
pub proof fn lemma_plain_type_unchanged(ty: TypeView, names: spec_fn(nat) -> Seq<char>, k: nat)
    requires
        plain_type(ty),
    ensures
        fold_type(ty, names, k) == Folded::done((ty, None::<Special>), k),
    decreases ty,
{
    match ty {
        TypeView::Path(type_path) => {
            lemma_plain_type_path_unchanged(type_path, names, k);
        },
        TypeView::Other(pieces) => {
            lemma_plain_pieces_unchanged(pieces, names, k);
        },
    }
}

/// Pieces without placeholders are left as they are.
pub proof fn lemma_plain_pieces_unchanged(
    pieces: Seq<PieceView>,
    names: spec_fn(nat) -> Seq<char>,
    k: nat,
)
    requires
        plain_pieces(pieces),
    ensures
        fold_pieces(pieces, names, k) == Folded::done(pieces, k),
    decreases pieces,
{
    if pieces.len() == 0 {
        assert(pieces =~= Seq::<PieceView>::empty());
    } else {
        let rest = pieces.drop_first();
        assert(plain_piece(pieces[0]));
        lemma_plain_piece_unchanged(pieces[0], names, k);
        assert forall|i: int| 0 <= i < rest.len() implies plain_piece(#[trigger] rest[i]) by {
            assert(rest[i] == pieces[i + 1]);
        }
        lemma_plain_pieces_unchanged(rest, names, k);
        let folded = fold_pieces(pieces, names, k);
        assert(seq![pieces[0]] + rest =~= pieces);
        assert(folded.generic_params =~= Seq::empty());
        assert(folded.where_predicates =~= Seq::empty());
    }
}

/// A piece without placeholders is left as it is.
pub proof fn lemma_plain_piece_unchanged(
    piece: PieceView,
    names: spec_fn(nat) -> Seq<char>,
    k: nat,
)
    requires
        plain_piece(piece),
    ensures
        fold_piece(piece, names, k) == Folded::done(piece, k),
    decreases piece,
{
    match piece {
        PieceView::Text(_) => {},
        PieceView::Type(ty) => {
            lemma_plain_type_unchanged(ty, names, k);
        },
        PieceView::Group(pieces) => {
            lemma_plain_pieces_unchanged(pieces, names, k);
        },
    }
}

/// A path that is not named after a placeholder and holds none is left as it is.
pub proof fn lemma_plain_type_path_unchanged(
    type_path: TypePathView,
    names: spec_fn(nat) -> Seq<char>,
    k: nat,
)
    requires
        plain_type_path(type_path),
    ensures
        fold_type_path(type_path, names, k) == Folded::done((type_path, None::<Special>), k),
    decreases type_path,
{
    match type_path.qself {
        Some(pieces) => {
            lemma_plain_pieces_unchanged(pieces, names, k);
        },
        None => {},
    }
    lemma_plain_segments_unchanged(type_path.segments, names, k);
    let folded = fold_type_path(type_path, names, k);
    assert(fold_qself(type_path.qself, names, k) == Folded::done(type_path.qself, k));
    assert(folded.generic_params =~= Seq::empty());
    assert(folded.where_predicates =~= Seq::empty());
}

/// Segments whose arguments hold no placeholders are left as they are.
pub proof fn lemma_plain_segments_unchanged(
    segments: Seq<PathSegmentView>,
    names: spec_fn(nat) -> Seq<char>,
    k: nat,
)
    requires
        plain_segments(segments),
    ensures
        fold_segments(segments, names, k) == Folded::done(segments, k),
    decreases segments,
{
    if segments.len() == 0 {
        assert(segments =~= Seq::<PathSegmentView>::empty());
    } else {
        let rest = segments.drop_first();
        assert(plain_path_segment(segments[0]));
        lemma_plain_path_segment_unchanged(segments[0], names, k);
        assert forall|i: int| 0 <= i < rest.len() implies plain_path_segment(
            #[trigger] rest[i],
        ) by {
            assert(rest[i] == segments[i + 1]);
        }
        lemma_plain_segments_unchanged(rest, names, k);
        let folded = fold_segments(segments, names, k);
        assert(seq![segments[0]] + rest =~= segments);
        assert(folded.generic_params =~= Seq::empty());
        assert(folded.where_predicates =~= Seq::empty());
    }
}

/// A segment whose arguments hold no placeholders is left as it is.
pub proof fn lemma_plain_path_segment_unchanged(
    segment: PathSegmentView,
    names: spec_fn(nat) -> Seq<char>,
    k: nat,
)
    requires
        plain_path_segment(segment),
    ensures
        fold_path_segment(segment, names, k) == Folded::done(segment, k),
    decreases segment,
{
    match segment.arguments {
        PathArgumentsView::Empty => {},
        PathArgumentsView::AngleBracketed(pieces) => {
            lemma_plain_pieces_unchanged(pieces, names, k);
        },
        PathArgumentsView::Parenthesized(pieces) => {
            lemma_plain_pieces_unchanged(pieces, names, k);
        },
    }
}

/// The function `item_fn` with its `where` clause in the form that a rewriting
/// leaves it in: a clause without predicates is no clause.
pub open spec fn normalized(item_fn: ItemFnView) -> ItemFnView {
    with_parts(
        item_fn,
        item_fn.sig.inputs,
        item_fn.sig.generics.params,
        where_predicates_of(item_fn),
        item_fn.block.stmts,
    )
}

/// Each parameter as it is, without a statement.
pub open spec fn unchanged_fn_args(fn_args: Seq<FnArgView>) -> Seq<(FnArgView, Option<StmtView>)> {
    fn_args.map_values(|fn_arg: FnArgView| (fn_arg, None::<StmtView>))
}

/// Parameters without placeholders are left as they are, and none of them gets a
/// statement.
pub proof fn lemma_plain_fn_args_unchanged(
    fn_args: Seq<FnArgView>,
    names: spec_fn(nat) -> Seq<char>,
    k: nat,
)
    requires
        plain_fn_args(fn_args),
    ensures
        delta_fn_args(fn_args, names, k) == Folded::done(unchanged_fn_args(fn_args), k),
        new_fn_args(unchanged_fn_args(fn_args)) == fn_args,
        new_stmts(unchanged_fn_args(fn_args)) == Seq::<StmtView>::empty(),
    decreases fn_args.len(),
{
    let unchanged = unchanged_fn_args(fn_args);
    assert(new_fn_args(unchanged) =~= fn_args);
    lemma_new_stmts_none(unchanged);
    if fn_args.len() > 0 {
        let rest = fn_args.drop_first();
        match normal_fn_arg(fn_args[0]) {
            Some((_, pat_type)) => {
                lemma_plain_type_unchanged(pat_type.ty, names, k);
            },
            None => {},
        }
        assert forall|i: int| 0 <= i < rest.len() implies (#[trigger] normal_fn_arg(
            rest[i],
        ) matches Some((_, pat_type)) ==> plain_type(pat_type.ty)) by {
            assert(rest[i] == fn_args[i + 1]);
        }
        lemma_plain_fn_args_unchanged(rest, names, k);
        let deltas = delta_fn_args(fn_args, names, k);
        assert(seq![(fn_args[0], None::<StmtView>)] + unchanged_fn_args(rest) =~= unchanged);
        assert(deltas.generic_params =~= Seq::empty());
        assert(deltas.where_predicates =~= Seq::empty());
    } else {
        assert(unchanged =~= Seq::empty());
    }
}

/// Parameters of which none has a statement add no statements.
proof fn lemma_new_stmts_none(deltas: Seq<(FnArgView, Option<StmtView>)>)
    requires
        forall|i: int| 0 <= i < deltas.len() ==> (#[trigger] deltas[i]).1 is None,
    ensures
        new_stmts(deltas) == Seq::<StmtView>::empty(),
    decreases deltas.len(),
{
    if deltas.len() > 0 {
        lemma_new_stmts_none(deltas.drop_last());
    }
}

/// A function without placeholders in the types of its parameters is left as it
/// is: the same parameters, generic parameters, predicates and body, and no suffix
/// drawn. Only a `where` clause without predicates is dropped.
pub proof fn lemma_plain_fn_unchanged(item_fn: ItemFnView, names: spec_fn(nat) -> Seq<char>, k: nat)
    requires
        plain_fn_args(item_fn.sig.inputs),
    ensures
        transform(item_fn, names, k).result == Ok::<ItemFnView, ErrorView>(normalized(item_fn)),
        transform(item_fn, names, k).next == k,
        item_fn.sig.generics.where_clause != Some(WhereClauseView { predicates: Seq::empty() })
            ==> normalized(item_fn) == item_fn,
{
    lemma_plain_fn_args_unchanged(item_fn.sig.inputs, names, k);
    let deltas = delta_fn_args(item_fn.sig.inputs, names, k);
    assert(item_fn.sig.generics.params + deltas.generic_params =~= item_fn.sig.generics.params);
    assert(where_predicates_of(item_fn) + deltas.where_predicates =~= where_predicates_of(
        item_fn,
    ));
    assert(new_stmts(unchanged_fn_args(item_fn.sig.inputs)) + item_fn.block.stmts
        =~= item_fn.block.stmts);
    if item_fn.sig.generics.where_clause != Some(WhereClauseView { predicates: Seq::empty() }) {
        match item_fn.sig.generics.where_clause {
            Some(where_clause) => {
                assert(where_clause.predicates.len() > 0) by {
                    if where_clause.predicates.len() == 0 {
                        assert(where_clause.predicates =~= Seq::empty());
                    }
                }
            },
            None => {},
        }
    }
}

/// `AnyString` and `AnyPath` written alone are each replaced by exactly one fresh
/// type parameter: its name is drawn at the position `k`, its bound is the one of
/// the placeholder, which holds no element type, and no lifetime is added.
pub proof fn lemma_text_or_path_alone(
    special: Special,
    type_path: TypePathView,
    names: spec_fn(nat) -> Seq<char>,
    k: nat,
)
    requires
        special == Special::AnyString || special == Special::AnyPath,
        type_path.qself is None,
        type_path.segments == seq![
            PathSegmentView { ident: special.name(), arguments: PathArgumentsView::Empty },
        ],
    ensures
        fold_type_path(type_path, names, k) == (Folded {
            result: Ok((ident_path(generic_name(special, names, k)), Some(special))),
            generic_params: seq![GenericParamView::Type(generic_name(special, names, k))],
            where_predicates: seq![
                WherePredicateView::Bounded {
                    ty: generic_name(special, names, k),
                    bound: if special == Special::AnyString {
                        BoundView::AsRefStr
                    } else {
                        BoundView::AsRefPath
                    },
                },
            ],
            next: k + 1,
        }),
{
    lemma_named_name(special);
    let segments = type_path.segments;
    assert(segments.drop_first() =~= Seq::<PathSegmentView>::empty());
    let path = fold_segments(segments, names, k);
    assert(fold_path_segment(segments[0], names, k) == Folded::done(segments[0], k));
    assert(fold_segments(segments.drop_first(), names, k) == Folded::done(
        Seq::<PathSegmentView>::empty(),
        k,
    ));
    assert(path.result->Ok_0 =~= segments);
    assert(path.generic_params =~= Seq::empty());
    assert(path.where_predicates =~= Seq::empty());
    let folded = fold_type_path(type_path, names, k);
    assert(folded.generic_params =~= seq![
        GenericParamView::Type(generic_name(special, names, k)),
    ]);
    assert(folded.where_predicates =~= seq![
        WherePredicateView::Bounded {
            ty: generic_name(special, names, k),
            bound: if special == Special::AnyString {
                BoundView::AsRefStr
            } else {
                BoundView::AsRefPath
            },
        },
    ]);
}

/// A placeholder draws its suffix after every placeholder inside it.
///
/// Where a path that is a placeholder is rewritten, the predicates are those of the
/// placeholders inside it, in their order, followed by the one of the placeholder
/// itself, and the type parameter of each placeholder inside is named at an earlier
/// position than the type parameter of the placeholder itself.
pub proof fn lemma_inner_before_outer(
    type_path: TypePathView,
    names: spec_fn(nat) -> Seq<char>,
    k: nat,
)
    requires
        fold_type_path(type_path, names, k).result is Ok,
        placeholder(type_path) is Some,
    ensures
        ({
            let inside = specials_inside_type_path(type_path);
            let outer = placeholder(type_path)->0;
            let where_predicates = fold_type_path(type_path, names, k).where_predicates;
            &&& where_predicates.len() == inside.len() + 1
            &&& bounded_type(where_predicates.last()) == Some(
                generic_name(outer, names, k + draws(inside)),
            )
            &&& forall|i: int|
                0 <= i < inside.len() ==> bounded_type(#[trigger] where_predicates[i]) == Some(
                    generic_name(inside[i], names, position_of(inside, k, i)),
                ) && position_of(inside, k, i) < k + draws(inside)
        }),
{
    lemma_type_path_in_order(type_path, names, k);
    let inside = specials_inside_type_path(type_path);
    let all = specials_in_type_path(type_path);
    let outer = placeholder(type_path)->0;
    assert(all == inside + seq![outer]);
    assert(all.take(inside.len() as int) =~= inside);
    let where_predicates = fold_type_path(type_path, names, k).where_predicates;
    assert(where_predicates.last() == where_predicates[inside.len() as int]);
    assert forall|i: int| 0 <= i < inside.len() implies bounded_type(
        #[trigger] where_predicates[i],
    ) == Some(generic_name(inside[i], names, position_of(inside, k, i))) && position_of(
        inside,
        k,
        i,
    ) < k + draws(inside) by {
        assert(all.take(i) =~= inside.take(i));
        assert(all[i] == inside[i]);
        lemma_positions_increase(all, k, i, inside.len() as int);
    }
}

/// A parameter gets a statement exactly if it is one that is rewritten and its own
/// type is a placeholder; the statement is the conversion for that placeholder. A
/// placeholder that only stands inside the type of a parameter brings a predicate
/// and no statement.
pub proof fn lemma_stmt_for_top_level_only(
    fn_arg: FnArgView,
    names: spec_fn(nat) -> Seq<char>,
    k: nat,
)
    requires
        delta_fn_arg(fn_arg, names, k).result is Ok,
    ensures
        delta_fn_arg(fn_arg, names, k).result->Ok_0.1 == match normal_fn_arg(fn_arg) {
            Some((pat_ident, pat_type)) => any_stmt(top_level_special(pat_type.ty), pat_ident),
            None => None,
        },
        in_order(delta_fn_arg(fn_arg, names, k), specials_in_fn_arg(fn_arg), names, k),
{
    match normal_fn_arg(fn_arg) {
        Some((_, pat_type)) => {
            lemma_type_in_order(pat_type.ty, names, k);
        },
        None => {},
    }
}

/// The placeholders in the type of a parameter, in the order in which they are
/// replaced; none for a parameter that is not rewritten.
pub open spec fn specials_in_fn_arg(fn_arg: FnArgView) -> Seq<Special> {
    match normal_fn_arg(fn_arg) {
        Some((_, pat_type)) => specials_in_type(pat_type.ty),
        None => Seq::empty(),
    }
}

/// The placeholders of a function, in the order in which they are replaced:
/// parameter by parameter, and within the type of a parameter innermost first and
/// from left to right.
pub open spec fn specials_in_fn_args(fn_args: Seq<FnArgView>) -> Seq<Special>
    decreases fn_args.len(),
{
    if fn_args.len() == 0 {
        Seq::empty()
    } else {
        specials_in_fn_arg(fn_args[0]) + specials_in_fn_args(fn_args.drop_first())
    }
}

/// The placeholders of parameters are replaced in their order.
pub proof fn lemma_fn_args_in_order(
    fn_args: Seq<FnArgView>,
    names: spec_fn(nat) -> Seq<char>,
    k: nat,
)
    requires
        delta_fn_args(fn_args, names, k).result is Ok,
    ensures
        in_order(delta_fn_args(fn_args, names, k), specials_in_fn_args(fn_args), names, k),
    decreases fn_args.len(),
{
    if fn_args.len() > 0 {
        let first = delta_fn_arg(fn_args[0], names, k);
        let rest = fn_args.drop_first();
        let later = delta_fn_args(rest, names, first.next);
        lemma_stmt_for_top_level_only(fn_args[0], names, k);
        lemma_fn_args_in_order(rest, names, first.next);
        lemma_in_order_followed_by(
            first,
            specials_in_fn_arg(fn_args[0]),
            later,
            specials_in_fn_args(rest),
            names,
            k,
        );
    }
}

/// The placeholders of a function are replaced in their order.
///
/// The rewriting adds one predicate for each placeholder, in the order in which
/// they are replaced, on a type parameter that is named after the placeholder with
/// the suffix at its position. The positions go up along the order, so a
/// placeholder that is replaced earlier has the earlier suffix.
pub proof fn lemma_fn_in_order(item_fn: ItemFnView, names: spec_fn(nat) -> Seq<char>, k: nat)
    requires
        transform(item_fn, names, k).result is Ok,
    ensures
        in_order(
            transform(item_fn, names, k),
            specials_in_fn_args(item_fn.sig.inputs),
            names,
            k,
        ),
        forall|i: int, j: int|
            0 <= i < j <= specials_in_fn_args(item_fn.sig.inputs).len() ==> #[trigger] position_of(
                specials_in_fn_args(item_fn.sig.inputs),
                k,
                i,
            ) < #[trigger] position_of(specials_in_fn_args(item_fn.sig.inputs), k, j),
{
    lemma_fn_args_in_order(item_fn.sig.inputs, names, k);
    let specials = specials_in_fn_args(item_fn.sig.inputs);
    assert forall|i: int, j: int| 0 <= i < j <= specials.len() implies #[trigger] position_of(
        specials,
        k,
        i,
    ) < #[trigger] position_of(specials, k, j) by {
        lemma_positions_increase(specials, k, i, j);
    }
}

/// A rewriting adds one predicate for each type parameter that it adds, in the
/// order of the type parameters, and the type parameters are those of the
/// placeholders of the function in the order in which they are replaced.
pub proof fn lemma_fn_predicates_match_type_parameters(
    item_fn: ItemFnView,
    names: spec_fn(nat) -> Seq<char>,
    k: nat,
)
    requires
        transform(item_fn, names, k).result is Ok,
    ensures
        type_params_of(transform(item_fn, names, k).generic_params) == bounded_types_of(
            transform(item_fn, names, k).where_predicates,
        ),
        type_params_of(transform(item_fn, names, k).generic_params) == generic_names_for(
            specials_in_fn_args(item_fn.sig.inputs),
            names,
            k,
        ),
{
    lemma_fn_in_order(item_fn, names, k);
    lemma_one_predicate_for_each_type_parameter(
        transform(item_fn, names, k),
        specials_in_fn_args(item_fn.sig.inputs),
        names,
        k,
    );
}

/// A type parameter is named after one placeholder with one suffix only.
pub proof fn lemma_generic_name_injective(
    special: Special,
    suffix: Seq<char>,
    other_special: Special,
    other_suffix: Seq<char>,
)
    requires
        special.name() + suffix == other_special.name() + other_suffix,
    ensures
        special == other_special,
        suffix == other_suffix,
{
    lemma_names_revealed();
    let name = special.name() + suffix;
    let other = other_special.name() + other_suffix;
    assert(name[3] == special.name()[3]);
    assert(other[3] == other_special.name()[3]);
    let len = special.name().len() as int;
    assert(name.subrange(len, name.len() as int) =~= suffix);
    assert(other.subrange(len, other.len() as int) =~= other_suffix);
}

/// No two placeholders get the same type parameter, as long as the suffixes at
/// different positions differ.
pub proof fn lemma_generic_names_distinct(
    specials: Seq<Special>,
    names: spec_fn(nat) -> Seq<char>,
    k: nat,
    i: int,
    j: int,
)
    requires
        forall|a: nat, b: nat| #[trigger] names(a) == #[trigger] names(b) ==> a == b,
        0 <= i < j < specials.len(),
    ensures
        generic_name(specials[i], names, position_of(specials, k, i)) != generic_name(
            specials[j],
            names,
            position_of(specials, k, j),
        ),
{
    lemma_positions_increase(specials, k, i, j);
    let first = position_of(specials, k, i);
    let second = position_of(specials, k, j);
    if generic_name(specials[i], names, first) == generic_name(specials[j], names, second) {
        lemma_generic_name_injective(specials[i], names(first), specials[j], names(second));
        assert(first == second);
    }
}

/// With the suffixes of any source, no two placeholders get the same type
/// parameter.
pub proof fn lemma_source_gives_distinct_generic_names<S: SuffixIter>(
    source: S,
    specials: Seq<Special>,
    k: nat,
    i: int,
    j: int,
)
    requires
        source.wf(),
        0 <= i < j < specials.len(),
    ensures
        generic_name(specials[i], source.names(), position_of(specials, k, i)) != generic_name(
            specials[j],
            source.names(),
            position_of(specials, k, j),
        ),
{
    let names = source.names();
    lemma_positions_increase(specials, k, i, j);
    let first = position_of(specials, k, i);
    let second = position_of(specials, k, j);
    if generic_name(specials[i], names, first) == generic_name(specials[j], names, second) {
        lemma_generic_name_injective(specials[i], names(first), specials[j], names(second));
        source.lemma_names_distinct(first, second);
    }
}

/// The name of a fresh type parameter is not the name of a placeholder, as long as
/// its suffix is not empty.
pub proof fn lemma_generic_name_is_no_placeholder(special: Special, suffix: Seq<char>)
    requires
        suffix.len() > 0,
    ensures
        Special::named(special.name() + suffix) is None,
{
    let name = special.name() + suffix;
    lemma_name_named(name);
    if Special::named(name) is Some {
        let other = Special::named(name)->0;
        assert(other.name() + Seq::<char>::empty() =~= other.name());
        lemma_generic_name_injective(special, suffix, other, Seq::empty());
    }
}

/// A type that was rewritten holds no placeholders, as long as no suffix is
/// empty.
pub proof fn lemma_rewritten_type_is_plain(ty: TypeView, names: spec_fn(nat) -> Seq<char>, k: nat)
    requires
        forall|n: nat| (#[trigger] names(n)).len() > 0,
        fold_type(ty, names, k).result is Ok,
    ensures
        plain_type(fold_type(ty, names, k).result->Ok_0.0),
    decreases ty,
{
    match ty {
        TypeView::Path(type_path) => {
            lemma_rewritten_type_path_is_plain(type_path, names, k);
        },
        TypeView::Other(pieces) => {
            lemma_rewritten_pieces_are_plain(pieces, names, k);
        },
    }
}

/// Pieces that were rewritten hold no placeholders, as long as no suffix is
/// empty.
pub proof fn lemma_rewritten_pieces_are_plain(
    pieces: Seq<PieceView>,
    names: spec_fn(nat) -> Seq<char>,
    k: nat,
)
    requires
        forall|n: nat| (#[trigger] names(n)).len() > 0,
        fold_pieces(pieces, names, k).result is Ok,
    ensures
        plain_pieces(fold_pieces(pieces, names, k).result->Ok_0),
    decreases pieces,
{
    if pieces.len() > 0 {
        let first = fold_piece(pieces[0], names, k);
        let later = fold_pieces(pieces.drop_first(), names, first.next);
        lemma_rewritten_piece_is_plain(pieces[0], names, k);
        lemma_rewritten_pieces_are_plain(pieces.drop_first(), names, first.next);
        let folded = fold_pieces(pieces, names, k).result->Ok_0;
        assert(folded == seq![first.result->Ok_0] + later.result->Ok_0);
        assert forall|i: int| 0 <= i < folded.len() implies plain_piece(#[trigger] folded[i]) by {
            if i > 0 {
                assert(folded[i] == later.result->Ok_0[i - 1]);
            }
        }
    }
}

/// A piece that was rewritten holds no placeholders, as long as no suffix is
/// empty.
pub proof fn lemma_rewritten_piece_is_plain(
    piece: PieceView,
    names: spec_fn(nat) -> Seq<char>,
    k: nat,
)
    requires
        forall|n: nat| (#[trigger] names(n)).len() > 0,
        fold_piece(piece, names, k).result is Ok,
    ensures
        plain_piece(fold_piece(piece, names, k).result->Ok_0),
    decreases piece,
{
    match piece {
        PieceView::Text(_) => {},
        PieceView::Type(ty) => {
            lemma_rewritten_type_is_plain(ty, names, k);
        },
        PieceView::Group(pieces) => {
            lemma_rewritten_pieces_are_plain(pieces, names, k);
        },
    }
}

/// A path that was rewritten is not named after a placeholder and holds none, as
/// long as no suffix is empty.
pub proof fn lemma_rewritten_type_path_is_plain(
    type_path: TypePathView,
    names: spec_fn(nat) -> Seq<char>,
    k: nat,
)
    requires
        forall|n: nat| (#[trigger] names(n)).len() > 0,
        fold_type_path(type_path, names, k).result is Ok,
    ensures
        plain_type_path(fold_type_path(type_path, names, k).result->Ok_0.0),
    decreases type_path,
{
    let prefix = fold_qself(type_path.qself, names, k);
    let path = fold_segments(type_path.segments, names, prefix.next);
    match type_path.qself {
        Some(pieces) => {
            lemma_rewritten_pieces_are_plain(pieces, names, k);
        },
        None => {},
    }
    lemma_rewritten_segments_are_plain(type_path.segments, names, prefix.next);
    let middle = TypePathView {
        qself: prefix.result->Ok_0,
        leading_colon: type_path.leading_colon,
        segments: path.result->Ok_0,
    };
    match Special::read(middle, type_path) {
        Ok(Some((special, _))) => {
            let name = generic_name(special, names, path.next);
            lemma_generic_name_is_no_placeholder(special, names(path.next));
            let fresh = ident_path(name);
            assert(fresh.segments.last().ident == name);
            assert(plain_path_segment(fresh.segments[0]));
            assert(plain_type_path(fresh));
        },
        _ => {},
    }
}

/// Segments that were rewritten hold no placeholders in their arguments, as long
/// as no suffix is empty.
pub proof fn lemma_rewritten_segments_are_plain(
    segments: Seq<PathSegmentView>,
    names: spec_fn(nat) -> Seq<char>,
    k: nat,
)
    requires
        forall|n: nat| (#[trigger] names(n)).len() > 0,
        fold_segments(segments, names, k).result is Ok,
    ensures
        plain_segments(fold_segments(segments, names, k).result->Ok_0),
    decreases segments,
{
    if segments.len() > 0 {
        let first = fold_path_segment(segments[0], names, k);
        let later = fold_segments(segments.drop_first(), names, first.next);
        lemma_rewritten_path_segment_is_plain(segments[0], names, k);
        lemma_rewritten_segments_are_plain(segments.drop_first(), names, first.next);
        let folded = fold_segments(segments, names, k).result->Ok_0;
        assert(folded == seq![first.result->Ok_0] + later.result->Ok_0);
        assert forall|i: int| 0 <= i < folded.len() implies plain_path_segment(
            #[trigger] folded[i],
        ) by {
            if i > 0 {
                assert(folded[i] == later.result->Ok_0[i - 1]);
            }
        }
    }
}

/// A segment that was rewritten holds no placeholders in its arguments, as long
/// as no suffix is empty.
pub proof fn lemma_rewritten_path_segment_is_plain(
    segment: PathSegmentView,
    names: spec_fn(nat) -> Seq<char>,
    k: nat,
)
    requires
        forall|n: nat| (#[trigger] names(n)).len() > 0,
        fold_path_segment(segment, names, k).result is Ok,
    ensures
        plain_path_segment(fold_path_segment(segment, names, k).result->Ok_0),
    decreases segment,
{
    match segment.arguments {
        PathArgumentsView::Empty => {},
        PathArgumentsView::AngleBracketed(pieces) => {
            lemma_rewritten_pieces_are_plain(pieces, names, k);
        },
        PathArgumentsView::Parenthesized(pieces) => {
            lemma_rewritten_pieces_are_plain(pieces, names, k);
        },
    }
}

/// The parameters of a function that was rewritten hold no placeholders that a
/// rewriting would replace, as long as no suffix is empty.
pub proof fn lemma_rewritten_fn_args_are_plain(
    fn_args: Seq<FnArgView>,
    names: spec_fn(nat) -> Seq<char>,
    k: nat,
)
    requires
        forall|n: nat| (#[trigger] names(n)).len() > 0,
        delta_fn_args(fn_args, names, k).result is Ok,
    ensures
        plain_fn_args(new_fn_args(delta_fn_args(fn_args, names, k).result->Ok_0)),
    decreases fn_args.len(),
{
    let deltas = delta_fn_args(fn_args, names, k).result->Ok_0;
    let rewritten = new_fn_args(deltas);
    if fn_args.len() > 0 {
        let first = delta_fn_arg(fn_args[0], names, k);
        let later = delta_fn_args(fn_args.drop_first(), names, first.next);
        match normal_fn_arg(fn_args[0]) {
            Some((_, pat_type)) => {
                lemma_rewritten_type_is_plain(pat_type.ty, names, k);
            },
            None => {},
        }
        lemma_rewritten_fn_args_are_plain(fn_args.drop_first(), names, first.next);
        assert(deltas == seq![first.result->Ok_0] + later.result->Ok_0);
        assert forall|i: int| 0 <= i < rewritten.len() implies (#[trigger] normal_fn_arg(
            rewritten[i],
        ) matches Some((_, pat_type)) ==> plain_type(pat_type.ty)) by {
            if i > 0 {
                assert(rewritten[i] == new_fn_args(later.result->Ok_0)[i - 1]);
            }
        }
    }
}

/// Rewriting what was rewritten changes nothing.
///
/// A function that was rewritten holds no placeholders in the parameters that a
/// rewriting looks at, so a second rewriting returns it as it is and draws no
/// suffix. This holds as long as no suffix of the first rewriting is empty: a type
/// parameter with an empty suffix would have the name of its placeholder.
pub proof fn lemma_rewritten_fn_stays(
    item_fn: ItemFnView,
    names: spec_fn(nat) -> Seq<char>,
    k: nat,
    other_names: spec_fn(nat) -> Seq<char>,
    other_k: nat,
)
    requires
        forall|n: nat| (#[trigger] names(n)).len() > 0,
        transform(item_fn, names, k).result is Ok,
    ensures
        transform(transform(item_fn, names, k).result->Ok_0, other_names, other_k).result
            == transform(item_fn, names, k).result,
        transform(transform(item_fn, names, k).result->Ok_0, other_names, other_k).next
            == other_k,
{
    lemma_rewritten_fn_args_are_plain(item_fn.sig.inputs, names, k);
    let rewritten = transform(item_fn, names, k).result->Ok_0;
    lemma_plain_fn_unchanged(rewritten, other_names, other_k);
    match rewritten.sig.generics.where_clause {
        Some(where_clause) => {
            assert(where_clause.predicates.len() > 0);
        },
        None => {},
    }
}

/// With the suffixes `0`, `1`, `2` and so on, rewriting what was rewritten changes
/// nothing.
pub proof fn lemma_rewritten_with_decimal_suffixes_stays(item_fn: ItemFnView)
    requires
        transform(item_fn, decimal_suffixes(), 0).result is Ok,
    ensures
        transform(
            transform(item_fn, decimal_suffixes(), 0).result->Ok_0,
            decimal_suffixes(),
            0,
        ).result == transform(item_fn, decimal_suffixes(), 0).result,
{
    let names = decimal_suffixes();
    assert forall|n: nat| (#[trigger] names(n)).len() > 0 by {
        lemma_decimal_digits(n);
    }
    lemma_rewritten_fn_stays(item_fn, names, 0, names, 0);
}

} // verus!
