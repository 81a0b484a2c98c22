//! The rewriting of one type: every placeholder in it, at any depth, is replaced by a
//! fresh type parameter.
//!
//! Types are walked innermost first and from left to right. Each placeholder that is
//! reached draws the next suffix for the name of its type parameter, so a
//! placeholder inside the element type of another gets the earlier suffix.

use crate::error::{Error, ErrorKind, ErrorView};
use crate::item::{
    option_view, views, GenericParam, GenericParamView, PatIdent, PatIdentView, Stmt, StmtView,
    WherePredicate, WherePredicateView,
};
use crate::special::{Arity, Special};
use crate::suffix::SuffixIter;
use crate::syntax::{
    ident_path, lemma_pieces_view, lemma_segments_view, pieces_view, segments_view,
    PathArguments, PathArgumentsView, PathSegment, PathSegmentView, Piece, PieceView, Type,
    TypePath, TypePathView, TypeView,
};
use vstd::prelude::*;

verus! {

/// What comes of rewriting a part of a type, when the suffixes are drawn from a
/// given position on.
///
/// It holds the generic parameters and the predicates that were added up to the end
/// or up to the error that stopped the rewriting, and the position of the next
/// suffix.
pub struct Folded<T> {
    /// The rewritten part, or the error that stopped the rewriting.
    pub result: Result<T, ErrorView>,
    /// The generic parameters that were added, in order.
    pub generic_params: Seq<GenericParamView>,
    /// The predicates that were added, in order.
    pub where_predicates: Seq<WherePredicateView>,
    /// The position of the suffix that is drawn next.
    pub next: nat,
}

impl<T> Folded<T> {
    /// A part that is done without anything added.
    pub open spec fn done(value: T, next: nat) -> Folded<T> {
        Folded {
            result: Ok(value),
            generic_params: Seq::empty(),
            where_predicates: Seq::empty(),
            next,
        }
    }

    /// An error before anything was added.
    pub open spec fn failed(error: ErrorView, next: nat) -> Folded<T> {
        Folded {
            result: Err(error),
            generic_params: Seq::empty(),
            where_predicates: Seq::empty(),
            next,
        }
    }

    /// The same additions with another result.
    pub open spec fn with<U>(self, result: Result<U, ErrorView>) -> Folded<U> {
        Folded {
            result,
            generic_params: self.generic_params,
            where_predicates: self.where_predicates,
            next: self.next,
        }
    }

    /// The additions of `self` followed by those of `later`, with the result of
    /// `later`.
    pub open spec fn followed_by<U>(self, later: Folded<U>) -> Folded<U> {
        Folded {
            result: later.result,
            generic_params: self.generic_params + later.generic_params,
            where_predicates: self.where_predicates + later.where_predicates,
            next: later.next,
        }
    }
}

/// The name of the type parameter that stands for `special` where the suffix is
/// drawn at `position`.
pub open spec fn generic_name(special: Special, names: spec_fn(nat) -> Seq<char>, position: nat) -> Seq<
    char,
> {
    special.name() + names(position)
}

/// The name of the lifetime for `special` where the suffix is drawn at `position`.
pub open spec fn lifetime_name(
    special: Special,
    names: spec_fn(nat) -> Seq<char>,
    position: nat,
) -> Seq<char> {
    special.snake_name() + names(position)
}

/// The lifetime that goes with a placeholder whose type parameter is named at
/// `position`: none unless the placeholder needs one, else the one named at the
/// position after.
pub open spec fn maybe_lifetime(
    special: Special,
    names: spec_fn(nat) -> Seq<char>,
    position: nat,
) -> Option<Seq<char>> {
    if special.needs_lifetime() {
        Some(lifetime_name(special, names, position + 1))
    } else {
        None
    }
}

/// The replacement of one placeholder.
///
/// Unless the element type is missing or unwanted, which is an `ArityError`, the
/// placeholder becomes a type parameter named after it with the suffix at
/// position `k`. A placeholder that needs a lifetime draws the suffix after that for
/// it, and the lifetime stands before the type parameter in the list. One predicate
/// is added, for the type parameter.
pub open spec fn define_generic(
    special: Special,
    sub_type: Option<TypeView>,
    written: TypePathView,
    names: spec_fn(nat) -> Seq<char>,
    k: nat,
) -> Folded<TypePathView> {
    if !special.arity_met(sub_type) {
        Folded::failed(ErrorView { kind: ErrorKind::ArityError, special, type_path: written }, k)
    } else {
        let generic = generic_name(special, names, k);
        let lifetime = maybe_lifetime(special, names, k);
        Folded {
            result: Ok(ident_path(generic)),
            generic_params: match lifetime {
                Some(lifetime) => seq![
                    GenericParamView::Lifetime(lifetime),
                    GenericParamView::Type(generic),
                ],
                None => seq![GenericParamView::Type(generic)],
            },
            where_predicates: seq![
                WherePredicateView::Bounded {
                    ty: generic,
                    bound: special.bound(sub_type, lifetime)->Ok_0,
                },
            ],
            next: if special.needs_lifetime() {
                k + 2
            } else {
                k + 1
            },
        }
    }
}

/// A path whose parts have been rewritten is replaced if it is a placeholder, and
/// stays as it is if it is not named after one. The placeholder that it was comes
/// with it.
pub open spec fn resolve(
    middle: TypePathView,
    written: TypePathView,
    names: spec_fn(nat) -> Seq<char>,
    k: nat,
) -> Folded<(TypePathView, Option<Special>)> {
    match Special::read(middle, written) {
        Err(error) => Folded::failed(error, k),
        Ok(None) => Folded::done((middle, None), k),
        Ok(Some((special, sub_type))) => {
            let defined = define_generic(special, sub_type, written, names, k);
            defined.with(
                match defined.result {
                    Ok(generic) => Ok((generic, Some(special))),
                    Err(error) => Err(error),
                },
            )
        },
    }
}

/// The rewriting of pieces, from the first to the last.
pub open spec fn fold_pieces(pieces: Seq<PieceView>, names: spec_fn(nat) -> Seq<char>, k: nat) -> Folded<
    Seq<PieceView>,
>
    decreases pieces,
{
    if pieces.len() == 0 {
        Folded::done(Seq::empty(), k)
    } else {
        let first = fold_piece(pieces[0], names, k);
        match first.result {
            Err(error) => first.with(Err(error)),
            Ok(piece) => {
                let rest = fold_pieces(pieces.drop_first(), names, first.next);
                first.followed_by(
                    rest.with(
                        match rest.result {
                            Ok(pieces) => Ok(seq![piece] + pieces),
                            Err(error) => Err(error),
                        },
                    ),
                )
            },
        }
    }
}

/// The rewriting of one piece: text stays, a type is rewritten, and a group is
/// rewritten piece by piece.
pub open spec fn fold_piece(piece: PieceView, names: spec_fn(nat) -> Seq<char>, k: nat) -> Folded<
    PieceView,
>
    decreases piece,
{
    match piece {
        PieceView::Text(text) => Folded::done(PieceView::Text(text), k),
        PieceView::Type(ty) => {
            let folded = fold_type(ty, names, k);
            folded.with(
                match folded.result {
                    Ok((ty, _)) => Ok(PieceView::Type(ty)),
                    Err(error) => Err(error),
                },
            )
        },
        PieceView::Group(pieces) => {
            let folded = fold_pieces(pieces, names, k);
            folded.with(
                match folded.result {
                    Ok(pieces) => Ok(PieceView::Group(pieces)),
                    Err(error) => Err(error),
                },
            )
        },
    }
}

/// The rewriting of a type. With the new type comes the placeholder that the type
/// itself was, if it was one: a type that only holds placeholders was none.
pub open spec fn fold_type(ty: TypeView, names: spec_fn(nat) -> Seq<char>, k: nat) -> Folded<
    (TypeView, Option<Special>),
>
    decreases ty,
{
    match ty {
        TypeView::Path(type_path) => {
            let folded = fold_type_path(type_path, names, k);
            folded.with(
                match folded.result {
                    Ok((type_path, special)) => Ok((TypeView::Path(type_path), special)),
                    Err(error) => Err(error),
                },
            )
        },
        TypeView::Other(pieces) => {
            let folded = fold_pieces(pieces, names, k);
            folded.with(
                match folded.result {
                    Ok(pieces) => Ok((TypeView::Other(pieces), None)),
                    Err(error) => Err(error),
                },
            )
        },
    }
}

/// The rewriting of the qualified-self prefix of a path.
pub open spec fn fold_qself(
    qself: Option<Seq<PieceView>>,
    names: spec_fn(nat) -> Seq<char>,
    k: nat,
) -> Folded<Option<Seq<PieceView>>>
    decreases qself,
{
    match qself {
        None => Folded::done(None, k),
        Some(pieces) => {
            let folded = fold_pieces(pieces, names, k);
            folded.with(
                match folded.result {
                    Ok(pieces) => Ok(Some(pieces)),
                    Err(error) => Err(error),
                },
            )
        },
    }
}

/// The rewriting of a path: first what it holds, the prefix and then the segments,
/// and then the path itself.
pub open spec fn fold_type_path(
    type_path: TypePathView,
    names: spec_fn(nat) -> Seq<char>,
    k: nat,
) -> Folded<(TypePathView, Option<Special>)>
    decreases type_path,
{
    let prefix = fold_qself(type_path.qself, names, k);
    match prefix.result {
        Err(error) => prefix.with(Err(error)),
        Ok(qself) => {
            let path = fold_segments(type_path.segments, names, prefix.next);
            match path.result {
                Err(error) => prefix.followed_by(path.with(Err(error))),
                Ok(segments) => {
                    let middle = TypePathView {
                        qself,
                        leading_colon: type_path.leading_colon,
                        segments,
                    };
                    prefix.followed_by(path).followed_by(
                        resolve(middle, type_path, names, path.next),
                    )
                },
            }
        },
    }
}

/// The rewriting of the segments of a path, from the first to the last.
pub open spec fn fold_segments(
    segments: Seq<PathSegmentView>,
    names: spec_fn(nat) -> Seq<char>,
    k: nat,
) -> Folded<Seq<PathSegmentView>>
    decreases segments,
{
    if segments.len() == 0 {
        Folded::done(Seq::empty(), k)
    } else {
        let first = fold_path_segment(segments[0], names, k);
        match first.result {
            Err(error) => first.with(Err(error)),
            Ok(segment) => {
                let rest = fold_segments(segments.drop_first(), names, first.next);
                first.followed_by(
                    rest.with(
                        match rest.result {
                            Ok(segments) => Ok(seq![segment] + segments),
                            Err(error) => Err(error),
                        },
                    ),
                )
            },
        }
    }
}

/// The rewriting of one segment: the identifier stays, the arguments are
/// rewritten.
pub open spec fn fold_path_segment(
    segment: PathSegmentView,
    names: spec_fn(nat) -> Seq<char>,
    k: nat,
) -> Folded<PathSegmentView>
    decreases segment,
{
    match segment.arguments {
        PathArgumentsView::Empty => Folded::done(segment, k),
        PathArgumentsView::AngleBracketed(pieces) => {
            let folded = fold_pieces(pieces, names, k);
            folded.with(
                match folded.result {
                    Ok(pieces) => Ok(
                        PathSegmentView {
                            ident: segment.ident,
                            arguments: PathArgumentsView::AngleBracketed(pieces),
                        },
                    ),
                    Err(error) => Err(error),
                },
            )
        },
        PathArgumentsView::Parenthesized(pieces) => {
            let folded = fold_pieces(pieces, names, k);
            folded.with(
                match folded.result {
                    Ok(pieces) => Ok(
                        PathSegmentView {
                            ident: segment.ident,
                            arguments: PathArgumentsView::Parenthesized(pieces),
                        },
                    ),
                    Err(error) => Err(error),
                },
            )
        },
    }
}

/// Whether the source `after` is the source `before` moved on to the position
/// `next`.
pub open spec fn advanced<S: SuffixIter>(after: S, before: S, next: nat) -> bool {
    &&& after.wf()
    &&& after.names() == before.names()
    &&& after.position() == next
}

/// The view of the outcome of rewriting pieces.
pub open spec fn pieces_result(result: Result<Vec<Piece>, Error>) -> Result<
    Seq<PieceView>,
    ErrorView,
> {
    match result {
        Ok(pieces) => Ok(pieces_view(pieces)),
        Err(error) => Err(error@),
    }
}

/// The view of the outcome of rewriting segments.
pub open spec fn segments_result(result: Result<Vec<PathSegment>, Error>) -> Result<
    Seq<PathSegmentView>,
    ErrorView,
> {
    match result {
        Ok(segments) => Ok(segments_view(segments)),
        Err(error) => Err(error@),
    }
}

/// The view of the outcome of rewriting a piece, a segment or a prefix.
pub open spec fn result_view<T: View>(result: Result<T, Error>) -> Result<T::V, ErrorView> {
    match result {
        Ok(value) => Ok(value@),
        Err(error) => Err(error@),
    }
}

/// The view of the outcome of rewriting a type or a path.
pub open spec fn special_result_view<T: View>(result: Result<(T, Option<Special>), Error>) -> Result<
    (T::V, Option<Special>),
    ErrorView,
> {
    match result {
        Ok((value, special)) => Ok((value@, special)),
        Err(error) => Err(error@),
    }
}

/// The statement for a parameter whose type was rewritten: the conversion for the
/// placeholder that the type itself was, and none if it was none.
pub open spec fn any_stmt(last_special: Option<Special>, pat_ident: PatIdentView) -> Option<
    StmtView,
> {
    match last_special {
        Some(special) => Some(special.stmt(pat_ident.ident)),
        None => None,
    }
}

/// What was gathered stays as it is where nothing is added.
proof fn lemma_nothing_added(delta: DeltaPatType)
    ensures
        views(delta.generic_params) + Seq::<GenericParamView>::empty() == views(
            delta.generic_params,
        ),
        views(delta.where_predicates) + Seq::<WherePredicateView>::empty() == views(
            delta.where_predicates,
        ),
{
    assert(views(delta.generic_params) + Seq::<GenericParamView>::empty() =~= views(
        delta.generic_params,
    ));
    assert(views(delta.where_predicates) + Seq::<WherePredicateView>::empty() =~= views(
        delta.where_predicates,
    ));
}

/// The generic parameters and the predicates that are gathered while the type of
/// one parameter is rewritten.
#[derive(Debug, PartialEq, Eq)]
pub struct DeltaPatType {
    pub generic_params: Vec<GenericParam>,
    pub where_predicates: Vec<WherePredicate>,
}

impl DeltaPatType {
    /// Whether `self` is `before` with the additions of `folded` at the end.
    pub open spec fn extends<T>(self, before: DeltaPatType, folded: Folded<T>) -> bool {
        &&& views(self.generic_params) == views(before.generic_params) + folded.generic_params
        &&& views(self.where_predicates) == views(before.where_predicates)
            + folded.where_predicates
    }

    /// Nothing gathered yet.
    pub fn new() -> (delta: Self)
        ensures
            delta.generic_params@.len() == 0,
            delta.where_predicates@.len() == 0,
    {
        DeltaPatType { generic_params: Vec::new(), where_predicates: Vec::new() }
    }

    /// Rewrites a type: every placeholder in it is replaced by a fresh type
    /// parameter, whose definition is added to `self`. The new type comes with the
    /// placeholder that the type itself was, if it was one.
    pub fn fold_type<S: SuffixIter>(&mut self, ty: &Type, suffix_iter: &mut S) -> (result: Result<
        (Type, Option<Special>),
        Error,
    >)
        requires
            old(suffix_iter).wf(),
        ensures
            ({
                let folded = fold_type(
                    ty@,
                    old(suffix_iter).names(),
                    old(suffix_iter).position(),
                );
                &&& advanced(*final(suffix_iter), *old(suffix_iter), folded.next)
                &&& final(self).extends(*old(self), folded)
                &&& special_result_view(result) == folded.result
            }),
        decreases ty,
    {
        match ty {
            Type::Path(type_path) => {
                match self.fold_type_path(type_path, suffix_iter) {
                    Ok((type_path, special)) => Ok((Type::Path(type_path), special)),
                    Err(error) => Err(error),
                }
            },
            Type::Other(pieces) => {
                match self.fold_pieces(pieces, suffix_iter) {
                    Ok(pieces) => Ok((Type::Other(pieces), None)),
                    Err(error) => Err(error),
                }
            },
        }
    }

    /// Rewrites pieces, from the first to the last.
    pub fn fold_pieces<S: SuffixIter>(&mut self, pieces: &Vec<Piece>, suffix_iter: &mut S) -> (result:
        Result<Vec<Piece>, Error>)
        requires
            old(suffix_iter).wf(),
        ensures
            ({
                let folded = fold_pieces(
                    pieces_view(*pieces),
                    old(suffix_iter).names(),
                    old(suffix_iter).position(),
                );
                &&& advanced(*final(suffix_iter), *old(suffix_iter), folded.next)
                &&& final(self).extends(*old(self), folded)
                &&& pieces_result(result) == folded.result
            }),
        decreases pieces,
    {
        let ghost names = suffix_iter.names();
        let ghost all = pieces_view(*pieces);
        let ghost total = fold_pieces(all, names, suffix_iter.position());
        let ghost mut generic_params: Seq<GenericParamView> = Seq::empty();
        let ghost mut where_predicates: Seq<WherePredicateView> = Seq::empty();
        let mut folded: Vec<Piece> = Vec::new();
        let mut i: usize = 0;
        proof {
            lemma_pieces_view(*pieces);
            assert(all.skip(0) =~= all);
            assert(views(self.generic_params) + generic_params =~= views(self.generic_params));
            assert(views(self.where_predicates) + where_predicates =~= views(self.where_predicates));
            let rest = fold_pieces(all, names, suffix_iter.position());
            assert(generic_params + rest.generic_params =~= rest.generic_params);
            assert(where_predicates + rest.where_predicates =~= rest.where_predicates);
            if rest.result is Ok {
                assert(pieces_view(folded) + rest.result->Ok_0 =~= rest.result->Ok_0);
            }
        }
        while i < pieces.len()
            invariant
                i <= pieces.len(),
                all == pieces_view(*pieces),
                names == old(suffix_iter).names(),
                total == fold_pieces(all, names, old(suffix_iter).position()),
                all.len() == pieces.len(),
                forall|j: int| 0 <= j < all.len() ==> #[trigger] all[j] == pieces@[j]@,
                suffix_iter.wf(),
                suffix_iter.names() == names,
                views(self.generic_params) == views(old(self).generic_params) + generic_params,
                views(self.where_predicates) == views(old(self).where_predicates)
                    + where_predicates,
                ({
                    let rest = fold_pieces(all.skip(i as int), names, suffix_iter.position());
                    &&& total.next == rest.next
                    &&& total.generic_params == generic_params + rest.generic_params
                    &&& total.where_predicates == where_predicates + rest.where_predicates
                    &&& total.result == match rest.result {
                        Ok(pieces) => Ok(pieces_view(folded) + pieces),
                        Err(error) => Err(error),
                    }
                }),
            decreases pieces.len() - i,
        {
            let ghost rest = all.skip(i as int);
            let ghost first = fold_piece(all[i as int], names, suffix_iter.position());
            proof {
                assert(rest[0] == all[i as int]);
                assert(rest.drop_first() =~= all.skip(i + 1));
            }
            match self.fold_piece(&pieces[i], suffix_iter) {
                Err(error) => {
                    proof {
                        assert(views(self.generic_params) =~= views(old(self).generic_params)
                            + total.generic_params);
                        assert(views(self.where_predicates) =~= views(old(self).where_predicates)
                            + total.where_predicates);
                    }
                    return Err(error);
                },
                Ok(piece) => {
                    let ghost before = pieces_view(folded);
                    proof {
                        lemma_pieces_view(folded);
                    }
                    folded.push(piece);
                    proof {
                        lemma_pieces_view(folded);
                        let later = fold_pieces(all.skip(i + 1), names, first.next);
                        assert(views(self.generic_params) =~= views(old(self).generic_params) + (
                        generic_params + first.generic_params));
                        assert(views(self.where_predicates) =~= views(old(self).where_predicates)
                            + (where_predicates + first.where_predicates));
                        assert(generic_params + (first.generic_params + later.generic_params)
                            =~= (generic_params + first.generic_params) + later.generic_params);
                        assert(where_predicates + (first.where_predicates
                            + later.where_predicates) =~= (where_predicates
                            + first.where_predicates) + later.where_predicates);
                        assert(pieces_view(folded) =~= before.push(piece@));
                        if later.result is Ok {
                            let tail = later.result->Ok_0;
                            assert(before + (seq![piece@] + tail) =~= pieces_view(folded) + tail);
                        }
                        generic_params = generic_params + first.generic_params;
                        where_predicates = where_predicates + first.where_predicates;
                    }
                },
            }
            i += 1;
        }
        proof {
            assert(all.skip(i as int) =~= Seq::<PieceView>::empty());
            assert(pieces_view(folded) + Seq::<PieceView>::empty() =~= pieces_view(folded));
            assert(generic_params + Seq::<GenericParamView>::empty() =~= generic_params);
            assert(where_predicates + Seq::<WherePredicateView>::empty() =~= where_predicates);
        }
        Ok(folded)
    }

    /// Rewrites one piece: text stays as it is, a type is rewritten, and a group is
    /// rewritten piece by piece.
    pub fn fold_piece<S: SuffixIter>(&mut self, piece: &Piece, suffix_iter: &mut S) -> (result: Result<
        Piece,
        Error,
    >)
        requires
            old(suffix_iter).wf(),
        ensures
            ({
                let folded = fold_piece(
                    piece@,
                    old(suffix_iter).names(),
                    old(suffix_iter).position(),
                );
                &&& advanced(*final(suffix_iter), *old(suffix_iter), folded.next)
                &&& final(self).extends(*old(self), folded)
                &&& result_view(result) == folded.result
            }),
        decreases piece,
    {
        match piece {
            Piece::Text(text) => {
                proof {
                    lemma_nothing_added(*self);
                }
                Ok(Piece::Text(text.clone()))
            },
            Piece::Type(ty) => {
                match self.fold_type(ty, suffix_iter) {
                    Ok((ty, _)) => Ok(Piece::Type(ty)),
                    Err(error) => Err(error),
                }
            },
            Piece::Group(pieces) => {
                match self.fold_pieces(pieces, suffix_iter) {
                    Ok(pieces) => Ok(Piece::Group(pieces)),
                    Err(error) => Err(error),
                }
            },
        }
    }

    /// Rewrites a path: first what it holds, and then the path itself, which is
    /// replaced by a fresh type parameter if it is a placeholder. The new path comes
    /// with the placeholder that the path was, if it was one.
    ///
    /// A path that is named after a placeholder and cannot be read as one is an
    /// error.
    pub fn fold_type_path<S: SuffixIter>(
        &mut self,
        type_path_old: &TypePath,
        suffix_iter: &mut S,
    ) -> (result: Result<(TypePath, Option<Special>), Error>)
        requires
            old(suffix_iter).wf(),
        ensures
            ({
                let folded = fold_type_path(
                    type_path_old@,
                    old(suffix_iter).names(),
                    old(suffix_iter).position(),
                );
                &&& advanced(*final(suffix_iter), *old(suffix_iter), folded.next)
                &&& final(self).extends(*old(self), folded)
                &&& special_result_view(result) == folded.result
            }),
        decreases type_path_old,
    {
        let ghost names = suffix_iter.names();
        let ghost prefix = fold_qself(type_path_old@.qself, names, suffix_iter.position());
        let qself = match &type_path_old.qself {
            None => {
                proof {
                    lemma_nothing_added(*self);
                }
                None
            },
            Some(pieces) => {
                match self.fold_pieces(pieces, suffix_iter) {
                    Ok(pieces) => Some(pieces),
                    Err(error) => {
                        return Err(error);
                    },
                }
            },
        };
        let ghost path = fold_segments(type_path_old@.segments, names, prefix.next);
        let segments = match self.fold_segments(&type_path_old.segments, suffix_iter) {
            Ok(segments) => segments,
            Err(error) => {
                proof {
                    assert(views(self.generic_params) =~= views(old(self).generic_params) + (
                    prefix.generic_params + path.generic_params));
                    assert(views(self.where_predicates) =~= views(old(self).where_predicates) + (
                    prefix.where_predicates + path.where_predicates));
                }
                return Err(error);
            },
        };
        let type_path_middle = TypePath {
            qself,
            leading_colon: type_path_old.leading_colon,
            segments,
        };
        let ghost last = resolve(type_path_middle@, type_path_old@, names, path.next);
        proof {
            assert(views(self.generic_params) =~= views(old(self).generic_params) + (
            prefix.generic_params + path.generic_params));
            assert(views(self.where_predicates) =~= views(old(self).where_predicates) + (
            prefix.where_predicates + path.where_predicates));
            assert(views(old(self).generic_params) + (prefix.generic_params + path.generic_params)
                + last.generic_params =~= views(old(self).generic_params) + (prefix.generic_params
                + path.generic_params + last.generic_params));
            assert(views(old(self).where_predicates) + (prefix.where_predicates
                + path.where_predicates) + last.where_predicates =~= views(
                old(self).where_predicates,
            ) + (prefix.where_predicates + path.where_predicates + last.where_predicates));
        }
        match Special::maybe_new(&type_path_middle, type_path_old) {
            Err(error) => {
                proof {
                    lemma_nothing_added(*self);
                }
                Err(error)
            },
            Ok(None) => {
                proof {
                    lemma_nothing_added(*self);
                }
                Ok((type_path_middle, None))
            },
            Ok(Some((special, maybe_sub_type))) => {
                match self.create_and_define_generic(
                    special,
                    maybe_sub_type,
                    type_path_old,
                    suffix_iter,
                ) {
                    Ok(generic) => Ok((generic, Some(special))),
                    Err(error) => Err(error),
                }
            },
        }
    }

    /// Rewrites the segments of a path, from the first to the last.
    pub fn fold_segments<S: SuffixIter>(
        &mut self,
        segments: &Vec<PathSegment>,
        suffix_iter: &mut S,
    ) -> (result: Result<Vec<PathSegment>, Error>)
        requires
            old(suffix_iter).wf(),
        ensures
            ({
                let folded = fold_segments(
                    segments_view(*segments),
                    old(suffix_iter).names(),
                    old(suffix_iter).position(),
                );
                &&& advanced(*final(suffix_iter), *old(suffix_iter), folded.next)
                &&& final(self).extends(*old(self), folded)
                &&& segments_result(result) == folded.result
            }),
        decreases segments,
    {
        let ghost names = suffix_iter.names();
        let ghost all = segments_view(*segments);
        let ghost total = fold_segments(all, names, suffix_iter.position());
        let ghost mut generic_params: Seq<GenericParamView> = Seq::empty();
        let ghost mut where_predicates: Seq<WherePredicateView> = Seq::empty();
        let mut folded: Vec<PathSegment> = Vec::new();
        let mut i: usize = 0;
        proof {
            lemma_segments_view(*segments);
            assert(all.skip(0) =~= all);
            assert(views(self.generic_params) + generic_params =~= views(self.generic_params));
            assert(views(self.where_predicates) + where_predicates =~= views(self.where_predicates));
            let rest = fold_segments(all, names, suffix_iter.position());
            assert(generic_params + rest.generic_params =~= rest.generic_params);
            assert(where_predicates + rest.where_predicates =~= rest.where_predicates);
            if rest.result is Ok {
                assert(segments_view(folded) + rest.result->Ok_0 =~= rest.result->Ok_0);
            }
        }
        while i < segments.len()
            invariant
                i <= segments.len(),
                all == segments_view(*segments),
                names == old(suffix_iter).names(),
                total == fold_segments(all, names, old(suffix_iter).position()),
                all.len() == segments.len(),
                forall|j: int| 0 <= j < all.len() ==> #[trigger] all[j] == segments@[j]@,
                suffix_iter.wf(),
                suffix_iter.names() == names,
                views(self.generic_params) == views(old(self).generic_params) + generic_params,
                views(self.where_predicates) == views(old(self).where_predicates)
                    + where_predicates,
                ({
                    let rest = fold_segments(all.skip(i as int), names, suffix_iter.position());
                    &&& total.next == rest.next
                    &&& total.generic_params == generic_params + rest.generic_params
                    &&& total.where_predicates == where_predicates + rest.where_predicates
                    &&& total.result == match rest.result {
                        Ok(segments) => Ok(segments_view(folded) + segments),
                        Err(error) => Err(error),
                    }
                }),
            decreases segments.len() - i,
        {
            let ghost rest = all.skip(i as int);
            let ghost first = fold_path_segment(all[i as int], names, suffix_iter.position());
            proof {
                assert(rest[0] == all[i as int]);
                assert(rest.drop_first() =~= all.skip(i + 1));
            }
            match self.fold_path_segment(&segments[i], suffix_iter) {
                Err(error) => {
                    proof {
                        assert(views(self.generic_params) =~= views(old(self).generic_params)
                            + total.generic_params);
                        assert(views(self.where_predicates) =~= views(old(self).where_predicates)
                            + total.where_predicates);
                    }
                    return Err(error);
                },
                Ok(segment) => {
                    let ghost before = segments_view(folded);
                    proof {
                        lemma_segments_view(folded);
                    }
                    folded.push(segment);
                    proof {
                        lemma_segments_view(folded);
                        let later = fold_segments(all.skip(i + 1), names, first.next);
                        assert(views(self.generic_params) =~= views(old(self).generic_params) + (
                        generic_params + first.generic_params));
                        assert(views(self.where_predicates) =~= views(old(self).where_predicates)
                            + (where_predicates + first.where_predicates));
                        assert(generic_params + (first.generic_params + later.generic_params)
                            =~= (generic_params + first.generic_params) + later.generic_params);
                        assert(where_predicates + (first.where_predicates
                            + later.where_predicates) =~= (where_predicates
                            + first.where_predicates) + later.where_predicates);
                        assert(segments_view(folded) =~= before.push(segment@));
                        if later.result is Ok {
                            let tail = later.result->Ok_0;
                            assert(before + (seq![segment@] + tail) =~= segments_view(folded)
                                + tail);
                        }
                        generic_params = generic_params + first.generic_params;
                        where_predicates = where_predicates + first.where_predicates;
                    }
                },
            }
            i += 1;
        }
        proof {
            assert(all.skip(i as int) =~= Seq::<PathSegmentView>::empty());
            assert(segments_view(folded) + Seq::<PathSegmentView>::empty() =~= segments_view(
                folded,
            ));
            assert(generic_params + Seq::<GenericParamView>::empty() =~= generic_params);
            assert(where_predicates + Seq::<WherePredicateView>::empty() =~= where_predicates);
        }
        Ok(folded)
    }

    /// Rewrites one segment of a path: the identifier stays as it is, the arguments
    /// are rewritten.
    pub fn fold_path_segment<S: SuffixIter>(
        &mut self,
        segment: &PathSegment,
        suffix_iter: &mut S,
    ) -> (result: Result<PathSegment, Error>)
        requires
            old(suffix_iter).wf(),
        ensures
            ({
                let folded = fold_path_segment(
                    segment@,
                    old(suffix_iter).names(),
                    old(suffix_iter).position(),
                );
                &&& advanced(*final(suffix_iter), *old(suffix_iter), folded.next)
                &&& final(self).extends(*old(self), folded)
                &&& result_view(result) == folded.result
            }),
        decreases segment,
    {
        let arguments = match &segment.arguments {
            PathArguments::Empty => {
                proof {
                    lemma_nothing_added(*self);
                }
                PathArguments::Empty
            },
            PathArguments::AngleBracketed(pieces) => {
                match self.fold_pieces(pieces, suffix_iter) {
                    Ok(pieces) => PathArguments::AngleBracketed(pieces),
                    Err(error) => {
                        return Err(error);
                    },
                }
            },
            PathArguments::Parenthesized(pieces) => {
                match self.fold_pieces(pieces, suffix_iter) {
                    Ok(pieces) => PathArguments::Parenthesized(pieces),
                    Err(error) => {
                        return Err(error);
                    },
                }
            },
        };
        Ok(PathSegment { ident: segment.ident.clone(), arguments })
    }

    /// The statement for a parameter whose type was rewritten: the conversion for
    /// the placeholder that the type itself was, and none if it was none.
    pub fn generate_any_stmt(last_special: Option<Special>, pat_ident: &PatIdent) -> (stmt: Option<
        Stmt,
    >)
        ensures
            option_view(stmt) == any_stmt(last_special, pat_ident@),
    {
        match last_special {
            Some(special) => Some(special.ident_to_stmt(pat_ident.ident.as_str())),
            None => None,
        }
    }

    /// Replaces one placeholder: draws the name of a fresh type parameter, and of a
    /// lifetime where the placeholder needs one, adds them to the generic parameters,
    /// adds the predicate for the type parameter, and gives the path that names the
    /// type parameter.
    ///
    /// It is an `ArityError`, with nothing drawn, if the placeholder takes no
    /// element type and has one, or takes one and has none.
    pub fn create_and_define_generic<S: SuffixIter>(
        &mut self,
        special: Special,
        maybe_sub_type: Option<Type>,
        written: &TypePath,
        suffix_iter: &mut S,
    ) -> (result: Result<TypePath, Error>)
        requires
            old(suffix_iter).wf(),
        ensures
            result is Ok <==> special.arity_met(maybe_sub_type),
            ({
                let folded = define_generic(
                    special,
                    option_view(maybe_sub_type),
                    written@,
                    old(suffix_iter).names(),
                    old(suffix_iter).position(),
                );
                &&& advanced(*final(suffix_iter), *old(suffix_iter), folded.next)
                &&& final(self).extends(*old(self), folded)
                &&& result_view(result) == folded.result
            }),
    {
        let arity_met = match special.arity() {
            Arity::Zero => maybe_sub_type.is_none(),
            Arity::ExactlyOne => maybe_sub_type.is_some(),
        };
        if !arity_met {
            proof {
                lemma_nothing_added(*self);
            }
            return Err(
                Error { kind: ErrorKind::ArityError, special, type_path: written.clone() },
            );
        }
        let ghost names = suffix_iter.names();
        let ghost k = suffix_iter.position();
        let generic = DeltaPatType::create_generic(&special, suffix_iter);
        let maybe_lifetime = self.create_maybe_lifetime(&special, suffix_iter);
        let ghost lifetime = option_view(maybe_lifetime);
        match special.special_to_where_predicate(
            generic.as_str(),
            maybe_sub_type,
            maybe_lifetime,
            written,
        ) {
            Ok(where_predicate) => {
                let ghost params = views(self.generic_params);
                let ghost predicates = views(self.where_predicates);
                self.generic_params.push(GenericParam::Type(generic.clone()));
                self.where_predicates.push(where_predicate);
                proof {
                    let folded = define_generic(
                        special,
                        option_view(maybe_sub_type),
                        written@,
                        names,
                        k,
                    );
                    assert(views(self.generic_params) =~= params.push(
                        GenericParamView::Type(generic@),
                    ));
                    assert(views(self.where_predicates) =~= predicates.push(where_predicate@));
                    assert(views(self.generic_params) =~= views(old(self).generic_params)
                        + folded.generic_params);
                    assert(views(self.where_predicates) =~= views(old(self).where_predicates)
                        + folded.where_predicates);
                }
                Ok(TypePath::from_ident(generic))
            },
            Err(error) => Err(error),
        }
    }

    /// Draws the name of a lifetime and adds the lifetime to the generic parameters,
    /// if the placeholder needs one.
    pub fn create_maybe_lifetime<S: SuffixIter>(
        &mut self,
        special: &Special,
        suffix_iter: &mut S,
    ) -> (lifetime: Option<String>)
        requires
            old(suffix_iter).wf(),
        ensures
            lifetime is Some <==> special.needs_lifetime(),
            lifetime matches Some(name) ==> name@ == lifetime_name(
                *special,
                old(suffix_iter).names(),
                old(suffix_iter).position(),
            ),
            advanced(
                *final(suffix_iter),
                *old(suffix_iter),
                if special.needs_lifetime() {
                    old(suffix_iter).position() + 1
                } else {
                    old(suffix_iter).position()
                },
            ),
            views(final(self).generic_params) == if special.needs_lifetime() {
                views(old(self).generic_params).push(
                    GenericParamView::Lifetime(
                        lifetime_name(
                            *special,
                            old(suffix_iter).names(),
                            old(suffix_iter).position(),
                        ),
                    ),
                )
            } else {
                views(old(self).generic_params)
            },
            final(self).where_predicates == old(self).where_predicates,
    {
        if special.should_add_lifetime() {
            let lifetime = DeltaPatType::create_lifetime(special, suffix_iter);
            let ghost params = views(self.generic_params);
            self.generic_params.push(GenericParam::Lifetime(lifetime.clone()));
            assert(views(self.generic_params) =~= params.push(
                GenericParamView::Lifetime(lifetime@),
            ));
            Some(lifetime)
        } else {
            None
        }
    }

    /// Draws the name of a type parameter: the name of the placeholder and the next
    /// suffix, such as `AnyString3`.
    pub fn create_generic<S: SuffixIter>(special: &Special, suffix_iter: &mut S) -> (generic: String)
        requires
            old(suffix_iter).wf(),
        ensures
            generic@ == generic_name(
                *special,
                old(suffix_iter).names(),
                old(suffix_iter).position(),
            ),
            advanced(*final(suffix_iter), *old(suffix_iter), old(suffix_iter).position() + 1),
    {
        let suffix = DeltaPatType::create_suffix(suffix_iter);
        let mut generic = special.to_string();
        generic.append(suffix.as_str());
        generic
    }

    /// Draws the name of a lifetime: the name of the placeholder in snake case and
    /// the next suffix, such as `any_nd_array4`.
    pub fn create_lifetime<S: SuffixIter>(special: &Special, suffix_iter: &mut S) -> (lifetime:
        String)
        requires
            old(suffix_iter).wf(),
        ensures
            lifetime@ == lifetime_name(
                *special,
                old(suffix_iter).names(),
                old(suffix_iter).position(),
            ),
            advanced(*final(suffix_iter), *old(suffix_iter), old(suffix_iter).position() + 1),
    {
        let suffix = DeltaPatType::create_suffix(suffix_iter);
        let mut lifetime = special.to_snake_case();
        lifetime.append(suffix.as_str());
        lifetime
    }

    /// Draws the next suffix.
    pub fn create_suffix<S: SuffixIter>(suffix_iter: &mut S) -> (suffix: String)
        requires
            old(suffix_iter).wf(),
        ensures
            suffix@ == (old(suffix_iter).names())(old(suffix_iter).position()),
            advanced(*final(suffix_iter), *old(suffix_iter), old(suffix_iter).position() + 1),
    {
        suffix_iter.next()
    }
}

} // verus!
