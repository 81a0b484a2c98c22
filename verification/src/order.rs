//! The order in which placeholders are replaced, and the names that follow from it.
//!
//! The placeholders of a type are replaced innermost first and from left to right.
//! The suffixes are drawn in that order, so the place of a placeholder in the order
//! gives the name of its type parameter.

use crate::fold::{
    define_generic, fold_path_segment, fold_piece, fold_pieces, fold_qself, fold_segments,
    fold_type, fold_type_path, generic_name, maybe_lifetime, resolve, Folded,
};
use crate::item::{GenericParamView, WherePredicateView};
use crate::special::Special;
use crate::syntax::{PathArgumentsView, PathSegmentView, PieceView, TypePathView, TypeView};
use vstd::prelude::*;

verus! {

/// The placeholder that a path itself is: the path is a single segment that is
/// named after the placeholder, without a qualified-self prefix.
pub open spec fn placeholder(type_path: TypePathView) -> Option<Special> {
    if type_path.qself is None && type_path.segments.len() == 1 {
        Special::named(type_path.segments[0].ident)
    } else {
        None
    }
}

/// The placeholder that a type itself is; a type that only holds placeholders is
/// none.
pub open spec fn top_level_special(ty: TypeView) -> Option<Special> {
    match ty {
        TypeView::Path(type_path) => placeholder(type_path),
        TypeView::Other(_) => None,
    }
}

/// The placeholders in a type, in the order in which they are replaced: those
/// inside a path before the path itself, and otherwise from left to right.
pub open spec fn specials_in_type(ty: TypeView) -> Seq<Special>
    decreases ty,
{
    match ty {
        TypeView::Path(type_path) => specials_in_type_path(type_path),
        TypeView::Other(pieces) => specials_in_pieces(pieces),
    }
}

/// The placeholders in pieces, in the order in which they are replaced.
pub open spec fn specials_in_pieces(pieces: Seq<PieceView>) -> Seq<Special>
    decreases pieces,
{
    if pieces.len() == 0 {
        Seq::empty()
    } else {
        specials_in_piece(pieces[0]) + specials_in_pieces(pieces.drop_first())
    }
}

/// The placeholders in a piece, in the order in which they are replaced.
pub open spec fn specials_in_piece(piece: PieceView) -> Seq<Special>
    decreases piece,
{
    match piece {
        PieceView::Text(_) => Seq::empty(),
        PieceView::Type(ty) => specials_in_type(ty),
        PieceView::Group(pieces) => specials_in_pieces(pieces),
    }
}

/// The placeholders inside a path, in the order in which they are replaced. The
/// path itself is not among them.
pub open spec fn specials_inside_type_path(type_path: TypePathView) -> Seq<Special>
    decreases type_path, 0nat,
{
    (match type_path.qself {
        Some(pieces) => specials_in_pieces(pieces),
        None => Seq::empty(),
    }) + specials_in_segments(type_path.segments)
}

/// The placeholders in a path, in the order in which they are replaced: those
/// inside the path, and then the path itself if it is one.
pub open spec fn specials_in_type_path(type_path: TypePathView) -> Seq<Special>
    decreases type_path, 1nat,
{
    specials_inside_type_path(type_path) + (match placeholder(type_path) {
        Some(special) => seq![special],
        None => Seq::empty(),
    })
}

/// The placeholders in the arguments of segments, in the order in which they are
/// replaced.
pub open spec fn specials_in_segments(segments: Seq<PathSegmentView>) -> Seq<Special>
    decreases segments,
{
    if segments.len() == 0 {
        Seq::empty()
    } else {
        specials_in_path_segment(segments[0]) + specials_in_segments(segments.drop_first())
    }
}

/// The placeholders in the arguments of a segment, in the order in which they are
/// replaced.
pub open spec fn specials_in_path_segment(segment: PathSegmentView) -> Seq<Special>
    decreases segment,
{
    match segment.arguments {
        PathArgumentsView::Empty => Seq::empty(),
        PathArgumentsView::AngleBracketed(pieces) => specials_in_pieces(pieces),
        PathArgumentsView::Parenthesized(pieces) => specials_in_pieces(pieces),
    }
}

/// The number of suffixes that a placeholder draws: one for its type parameter,
/// and one more if it needs a lifetime.
pub open spec fn draws_of(special: Special) -> nat {
    if special.needs_lifetime() {
        2
    } else {
        1
    }
}

/// The number of suffixes that placeholders draw together.
pub open spec fn draws(specials: Seq<Special>) -> nat
    decreases specials.len(),
{
    if specials.len() == 0 {
        0
    } else {
        draws(specials.drop_last()) + draws_of(specials.last())
    }
}

/// The generic parameters for one placeholder whose type parameter is named at
/// `position`: the lifetime, if it needs one, and then the type parameter.
pub open spec fn generic_params_of(
    special: Special,
    names: spec_fn(nat) -> Seq<char>,
    position: nat,
) -> Seq<GenericParamView> {
    match maybe_lifetime(special, names, position) {
        Some(lifetime) => seq![
            GenericParamView::Lifetime(lifetime),
            GenericParamView::Type(generic_name(special, names, position)),
        ],
        None => seq![GenericParamView::Type(generic_name(special, names, position))],
    }
}

/// The generic parameters for placeholders that are replaced in the given order,
/// with suffixes drawn from position `k` on.
pub open spec fn generic_params_for(
    specials: Seq<Special>,
    names: spec_fn(nat) -> Seq<char>,
    k: nat,
) -> Seq<GenericParamView>
    decreases specials.len(),
{
    if specials.len() == 0 {
        Seq::empty()
    } else {
        let before = specials.drop_last();
        generic_params_for(before, names, k) + generic_params_of(
            specials.last(),
            names,
            k + draws(before),
        )
    }
}

/// The position at which the type parameter of the placeholder at place `i` of the
/// order is named, where suffixes are drawn from position `k` on.
pub open spec fn position_of(specials: Seq<Special>, k: nat, i: int) -> nat {
    k + draws(specials.take(i))
}

/// The type parameter that a predicate binds; none for a predicate that is kept as
/// source text.
pub open spec fn bounded_type(where_predicate: WherePredicateView) -> Option<Seq<char>> {
    match where_predicate {
        WherePredicateView::Bounded { ty, .. } => Some(ty),
        WherePredicateView::Verbatim(_) => None,
    }
}

/// Whether the predicates are those of the placeholders in the given order: one
/// predicate for each, on the type parameter that is named after the placeholder
/// with the suffix at its position.
pub open spec fn predicates_in_order(
    where_predicates: Seq<WherePredicateView>,
    specials: Seq<Special>,
    names: spec_fn(nat) -> Seq<char>,
    k: nat,
) -> bool {
    &&& where_predicates.len() == specials.len()
    &&& forall|i: int|
        0 <= i < specials.len() ==> bounded_type(#[trigger] where_predicates[i]) == Some(
            generic_name(specials[i], names, position_of(specials, k, i)),
        )
}

/// Whether a rewriting has added what the placeholders in the given order call
/// for, and has drawn as many suffixes as they draw.
pub open spec fn in_order<T>(
    folded: Folded<T>,
    specials: Seq<Special>,
    names: spec_fn(nat) -> Seq<char>,
    k: nat,
) -> bool {
    &&& folded.next == k + draws(specials)
    &&& folded.generic_params == generic_params_for(specials, names, k)
    &&& predicates_in_order(folded.where_predicates, specials, names, k)
}

/// Placeholders draw the suffixes of the first of them and then those of the
/// rest.
pub proof fn lemma_draws_add(a: Seq<Special>, b: Seq<Special>)
    ensures
        draws(a + b) == draws(a) + draws(b),
    decreases b.len(),
{
    if b.len() == 0 {
        assert(a + b =~= a);
    } else {
        lemma_draws_add(a, b.drop_last());
        assert((a + b).drop_last() =~= a + b.drop_last());
        assert((a + b).last() == b.last());
    }
}

/// Every placeholder draws at least one suffix, so the positions go up along the
/// order.
pub proof fn lemma_positions_increase(specials: Seq<Special>, k: nat, i: int, j: int)
    requires
        0 <= i < j <= specials.len(),
    ensures
        position_of(specials, k, i) < position_of(specials, k, j),
{
    let shorter = specials.take(i);
    let longer = specials.take(j);
    let between = specials.subrange(i, j);
    assert(longer =~= shorter + between);
    lemma_draws_add(shorter, between);
    lemma_draws_positive(between);
}

/// Placeholders draw at least as many suffixes as there are placeholders.
pub proof fn lemma_draws_positive(specials: Seq<Special>)
    ensures
        draws(specials) >= specials.len(),
    decreases specials.len(),
{
    if specials.len() > 0 {
        lemma_draws_positive(specials.drop_last());
    }
}

proof fn lemma_generic_params_for_add(
    a: Seq<Special>,
    b: Seq<Special>,
    names: spec_fn(nat) -> Seq<char>,
    k: nat,
)
    ensures
        generic_params_for(a + b, names, k) == generic_params_for(a, names, k)
            + generic_params_for(b, names, k + draws(a)),
    decreases b.len(),
{
    if b.len() == 0 {
        assert(a + b =~= a);
        assert(generic_params_for(a, names, k) + Seq::<GenericParamView>::empty()
            =~= generic_params_for(a, names, k));
    } else {
        let before = b.drop_last();
        lemma_generic_params_for_add(a, before, names, k);
        lemma_draws_add(a, before);
        assert((a + b).drop_last() =~= a + before);
        assert((a + b).last() == b.last());
        assert(generic_params_for(a + b, names, k) =~= generic_params_for(a, names, k)
            + generic_params_for(b, names, k + draws(a)));
    }
}

proof fn lemma_predicates_in_order_add(
    p: Seq<WherePredicateView>,
    a: Seq<Special>,
    q: Seq<WherePredicateView>,
    b: Seq<Special>,
    names: spec_fn(nat) -> Seq<char>,
    k: nat,
)
    requires
        predicates_in_order(p, a, names, k),
        predicates_in_order(q, b, names, k + draws(a)),
    ensures
        predicates_in_order(p + q, a + b, names, k),
{
    let both = a + b;
    assert forall|i: int| 0 <= i < both.len() implies bounded_type(#[trigger] (p + q)[i]) == Some(
        generic_name(both[i], names, position_of(both, k, i)),
    ) by {
        if i < a.len() {
            assert(both.take(i) =~= a.take(i));
            assert((p + q)[i] == p[i]);
        } else {
            let j = i - a.len();
            assert(both.take(i) =~= a + b.take(j));
            lemma_draws_add(a, b.take(j));
            assert((p + q)[i] == q[j]);
            assert(both[i] == b[j]);
        }
    }
}

/// What is in order from `k` on, followed by what is in order from there on, is in
/// order from `k` on.
pub proof fn lemma_in_order_followed_by<T, U>(
    first: Folded<T>,
    a: Seq<Special>,
    later: Folded<U>,
    b: Seq<Special>,
    names: spec_fn(nat) -> Seq<char>,
    k: nat,
)
    requires
        in_order(first, a, names, k),
        in_order(later, b, names, first.next),
    ensures
        in_order(first.followed_by(later), a + b, names, k),
{
    lemma_draws_add(a, b);
    lemma_generic_params_for_add(a, b, names, k);
    lemma_predicates_in_order_add(
        first.where_predicates,
        a,
        later.where_predicates,
        b,
        names,
        k,
    );
}

/// Rewriting keeps the number of the segments of a path and their identifiers.
pub proof fn lemma_fold_segments_shape(
    segments: Seq<PathSegmentView>,
    names: spec_fn(nat) -> Seq<char>,
    k: nat,
)
    requires
        fold_segments(segments, names, k).result is Ok,
    ensures
        ({
            let folded = fold_segments(segments, names, k).result->Ok_0;
            &&& folded.len() == segments.len()
            &&& forall|i: int|
                0 <= i < segments.len() ==> (#[trigger] folded[i]).ident == segments[i].ident
        }),
    decreases segments.len(),
{
    if segments.len() > 0 {
        let first = fold_path_segment(segments[0], names, k);
        let rest = segments.drop_first();
        let later = fold_segments(rest, names, first.next);
        lemma_fold_segments_shape(rest, names, first.next);
        let folded = fold_segments(segments, names, k).result->Ok_0;
        assert(folded == seq![first.result->Ok_0] + later.result->Ok_0);
        assert forall|i: int| 0 <= i < segments.len() implies (#[trigger] folded[i]).ident
            == segments[i].ident by {
            if i > 0 {
                assert(folded[i] == later.result->Ok_0[i - 1]);
                assert(rest[i - 1] == segments[i]);
            }
        }
    }
}

/// One placeholder that is replaced is in order by itself.
pub proof fn lemma_define_generic_in_order(
    special: Special,
    sub_type: Option<TypeView>,
    written: TypePathView,
    names: spec_fn(nat) -> Seq<char>,
    k: nat,
)
    requires
        define_generic(special, sub_type, written, names, k).result is Ok,
    ensures
        in_order(define_generic(special, sub_type, written, names, k), seq![special], names, k),
{
    let one = seq![special];
    assert(one.drop_last() =~= Seq::<Special>::empty());
    assert(one.take(0) =~= Seq::<Special>::empty());
    assert(draws(one.drop_last()) == 0);
    assert(generic_params_for(one.drop_last(), names, k) =~= Seq::<GenericParamView>::empty());
    let defined = define_generic(special, sub_type, written, names, k);
    assert(defined.generic_params =~= generic_params_for(one, names, k));
}

/// The placeholders of a type are replaced in their order: the rewriting adds the
/// generic parameters and the predicates that the order calls for, and draws as
/// many suffixes as the placeholders draw. The placeholder that comes with the new
/// type is the one that the type itself was.
pub proof fn lemma_type_in_order(ty: TypeView, names: spec_fn(nat) -> Seq<char>, k: nat)
    requires
        fold_type(ty, names, k).result is Ok,
    ensures
        in_order(fold_type(ty, names, k), specials_in_type(ty), names, k),
        fold_type(ty, names, k).result->Ok_0.1 == top_level_special(ty),
    decreases ty,
{
    match ty {
        TypeView::Path(type_path) => {
            lemma_type_path_in_order(type_path, names, k);
        },
        TypeView::Other(pieces) => {
            lemma_pieces_in_order(pieces, names, k);
        },
    }
}

/// The placeholders of pieces are replaced in their order.
pub proof fn lemma_pieces_in_order(
    pieces: Seq<PieceView>,
    names: spec_fn(nat) -> Seq<char>,
    k: nat,
)
    requires
        fold_pieces(pieces, names, k).result is Ok,
    ensures
        in_order(fold_pieces(pieces, names, k), specials_in_pieces(pieces), names, k),
    decreases pieces,
{
    if pieces.len() > 0 {
        let first = fold_piece(pieces[0], names, k);
        let rest = pieces.drop_first();
        let later = fold_pieces(rest, names, first.next);
        lemma_piece_in_order(pieces[0], names, k);
        lemma_pieces_in_order(rest, names, first.next);
        lemma_in_order_followed_by(
            first,
            specials_in_piece(pieces[0]),
            later,
            specials_in_pieces(rest),
            names,
            k,
        );
    }
}

/// The placeholders of a piece are replaced in their order.
pub proof fn lemma_piece_in_order(piece: PieceView, names: spec_fn(nat) -> Seq<char>, k: nat)
    requires
        fold_piece(piece, names, k).result is Ok,
    ensures
        in_order(fold_piece(piece, names, k), specials_in_piece(piece), names, k),
    decreases piece,
{
    match piece {
        PieceView::Text(_) => {},
        PieceView::Type(ty) => {
            lemma_type_in_order(ty, names, k);
        },
        PieceView::Group(pieces) => {
            lemma_pieces_in_order(pieces, names, k);
        },
    }
}

/// The placeholders of a path are replaced in their order: those inside the path,
/// and then the path itself if it is one. The placeholder that comes with the new
/// path is the one that the path was.
pub proof fn lemma_type_path_in_order(
    type_path: TypePathView,
    names: spec_fn(nat) -> Seq<char>,
    k: nat,
)
    requires
        fold_type_path(type_path, names, k).result is Ok,
    ensures
        in_order(
            fold_type_path(type_path, names, k),
            specials_in_type_path(type_path),
            names,
            k,
        ),
        fold_type_path(type_path, names, k).result->Ok_0.1 == placeholder(type_path),
    decreases type_path,
{
    let prefix = fold_qself(type_path.qself, names, k);
    let path = fold_segments(type_path.segments, names, prefix.next);
    let in_prefix = match type_path.qself {
        Some(pieces) => specials_in_pieces(pieces),
        None => Seq::empty(),
    };
    match type_path.qself {
        Some(pieces) => {
            lemma_pieces_in_order(pieces, names, k);
        },
        None => {},
    }
    assert(in_order(prefix, in_prefix, names, k));
    lemma_segments_in_order(type_path.segments, names, prefix.next);
    lemma_fold_segments_shape(type_path.segments, names, prefix.next);
    lemma_in_order_followed_by(
        prefix,
        in_prefix,
        path,
        specials_in_segments(type_path.segments),
        names,
        k,
    );
    let middle = TypePathView {
        qself: prefix.result->Ok_0,
        leading_colon: type_path.leading_colon,
        segments: path.result->Ok_0,
    };
    let last = resolve(middle, type_path, names, path.next);
    let itself = match placeholder(type_path) {
        Some(special) => seq![special],
        None => Seq::<Special>::empty(),
    };
    assert(Special::resembled(middle) == Special::resembled(type_path));
    match Special::read(middle, type_path) {
        Ok(Some((special, sub_type))) => {
            lemma_define_generic_in_order(special, sub_type, type_path, names, path.next);
        },
        _ => {},
    }
    assert(in_order(last, itself, names, path.next));
    lemma_in_order_followed_by(
        prefix.followed_by(path),
        specials_inside_type_path(type_path),
        last,
        itself,
        names,
        k,
    );
}

/// The placeholders in the arguments of segments are replaced in their order.
pub proof fn lemma_segments_in_order(
    segments: Seq<PathSegmentView>,
    names: spec_fn(nat) -> Seq<char>,
    k: nat,
)
    requires
        fold_segments(segments, names, k).result is Ok,
    ensures
        in_order(fold_segments(segments, names, k), specials_in_segments(segments), names, k),
    decreases segments,
{
    if segments.len() > 0 {
        let first = fold_path_segment(segments[0], names, k);
        let rest = segments.drop_first();
        let later = fold_segments(rest, names, first.next);
        lemma_path_segment_in_order(segments[0], names, k);
        lemma_segments_in_order(rest, names, first.next);
        lemma_in_order_followed_by(
            first,
            specials_in_path_segment(segments[0]),
            later,
            specials_in_segments(rest),
            names,
            k,
        );
    }
}

/// The placeholders in the arguments of a segment are replaced in their order.
pub proof fn lemma_path_segment_in_order(
    segment: PathSegmentView,
    names: spec_fn(nat) -> Seq<char>,
    k: nat,
)
    requires
        fold_path_segment(segment, names, k).result is Ok,
    ensures
        in_order(
            fold_path_segment(segment, names, k),
            specials_in_path_segment(segment),
            names,
            k,
        ),
    decreases segment,
{
    match segment.arguments {
        PathArgumentsView::Empty => {},
        PathArgumentsView::AngleBracketed(pieces) => {
            lemma_pieces_in_order(pieces, names, k);
        },
        PathArgumentsView::Parenthesized(pieces) => {
            lemma_pieces_in_order(pieces, names, k);
        },
    }
}

/// The names of the type parameters among generic parameters, in their order.
pub open spec fn type_params_of(generic_params: Seq<GenericParamView>) -> Seq<Seq<char>>
    decreases generic_params.len(),
{
    if generic_params.len() == 0 {
        Seq::empty()
    } else {
        let names = type_params_of(generic_params.drop_last());
        match generic_params.last() {
            GenericParamView::Type(name) => names.push(name),
            _ => names,
        }
    }
}

/// The names of the type parameters that predicates bind, in the order of the
/// predicates.
pub open spec fn bounded_types_of(where_predicates: Seq<WherePredicateView>) -> Seq<Seq<char>>
    decreases where_predicates.len(),
{
    if where_predicates.len() == 0 {
        Seq::empty()
    } else {
        let names = bounded_types_of(where_predicates.drop_last());
        match bounded_type(where_predicates.last()) {
            Some(ty) => names.push(ty),
            None => names,
        }
    }
}

/// The names of the type parameters for placeholders in the given order, with
/// suffixes drawn from position `k` on.
pub open spec fn generic_names_for(
    specials: Seq<Special>,
    names: spec_fn(nat) -> Seq<char>,
    k: nat,
) -> Seq<Seq<char>> {
    Seq::new(
        specials.len(),
        |i: int| generic_name(specials[i], names, position_of(specials, k, i)),
    )
}

proof fn lemma_type_params_of_add(a: Seq<GenericParamView>, b: Seq<GenericParamView>)
    ensures
        type_params_of(a + b) == type_params_of(a) + type_params_of(b),
    decreases b.len(),
{
    if b.len() == 0 {
        assert(a + b =~= a);
        assert(type_params_of(a) + type_params_of(b) =~= type_params_of(a));
    } else {
        lemma_type_params_of_add(a, b.drop_last());
        assert((a + b).drop_last() =~= a + b.drop_last());
        assert((a + b).last() == b.last());
        assert(type_params_of(a + b) =~= type_params_of(a) + type_params_of(b));
    }
}

proof fn lemma_type_params_for(specials: Seq<Special>, names: spec_fn(nat) -> Seq<char>, k: nat)
    ensures
        type_params_of(generic_params_for(specials, names, k)) == generic_names_for(
            specials,
            names,
            k,
        ),
    decreases specials.len(),
{
    if specials.len() == 0 {
        assert(generic_names_for(specials, names, k) =~= Seq::<Seq<char>>::empty());
    } else {
        let before = specials.drop_last();
        let last = generic_params_of(specials.last(), names, k + draws(before));
        lemma_type_params_for(before, names, k);
        lemma_type_params_of_add(generic_params_for(before, names, k), last);
        let name = generic_name(specials.last(), names, k + draws(before));
        assert(type_params_of(last) =~= seq![name]) by {
            let none = Seq::<GenericParamView>::empty();
            assert(type_params_of(none) =~= Seq::<Seq<char>>::empty());
            if specials.last().needs_lifetime() {
                let lifetime = last.drop_last();
                assert(last.len() == 2);
                assert(lifetime.len() == 1);
                assert(lifetime.last() is Lifetime);
                assert(lifetime.drop_last() =~= none);
                assert(type_params_of(lifetime) =~= Seq::<Seq<char>>::empty());
                assert(last.last() == GenericParamView::Type(name));
            } else {
                assert(last.len() == 1);
                assert(last.drop_last() =~= none);
                assert(last.last() == GenericParamView::Type(name));
            }
        }
        assert(specials.take(specials.len() - 1) =~= before);
        assert forall|i: int| 0 <= i < before.len() implies before.take(i) == specials.take(
            i,
        ) by {
            assert(before.take(i) =~= specials.take(i));
        }
        assert(generic_names_for(before, names, k) + seq![name] =~= generic_names_for(
            specials,
            names,
            k,
        ));
    }
}

proof fn lemma_bounded_types_in_order(
    where_predicates: Seq<WherePredicateView>,
    specials: Seq<Special>,
    names: spec_fn(nat) -> Seq<char>,
    k: nat,
)
    requires
        predicates_in_order(where_predicates, specials, names, k),
    ensures
        bounded_types_of(where_predicates) == generic_names_for(specials, names, k),
    decreases specials.len(),
{
    if specials.len() == 0 {
        assert(generic_names_for(specials, names, k) =~= Seq::<Seq<char>>::empty());
    } else {
        let before = specials.drop_last();
        let earlier = where_predicates.drop_last();
        assert forall|i: int| 0 <= i < before.len() implies bounded_type(#[trigger] earlier[i])
            == Some(generic_name(before[i], names, position_of(before, k, i))) by {
            assert(earlier[i] == where_predicates[i]);
            assert(before.take(i) =~= specials.take(i));
        }
        lemma_bounded_types_in_order(earlier, before, names, k);
        let last = specials.len() - 1;
        assert(where_predicates.last() == where_predicates[last]);
        assert forall|i: int| 0 <= i < before.len() implies before.take(i) == specials.take(
            i,
        ) by {
            assert(before.take(i) =~= specials.take(i));
        }
        assert(bounded_types_of(where_predicates) =~= generic_names_for(specials, names, k));
    }
}

/// What is in order has one predicate for each type parameter that was added, and
/// the predicates stand in the order of the type parameters.
pub proof fn lemma_one_predicate_for_each_type_parameter<T>(
    folded: Folded<T>,
    specials: Seq<Special>,
    names: spec_fn(nat) -> Seq<char>,
    k: nat,
)
    requires
        in_order(folded, specials, names, k),
    ensures
        type_params_of(folded.generic_params) == bounded_types_of(folded.where_predicates),
        type_params_of(folded.generic_params) == generic_names_for(specials, names, k),
{
    lemma_type_params_for(specials, names, k);
    lemma_bounded_types_in_order(folded.where_predicates, specials, names, k);
}

} // verus!
