//! The source text of types, parameters, predicates, statements and whole
//! functions.

use crate::item::{
    views, Bound, BoundView, Conversion, FnArg, FnArgView, GenericParam, GenericParamView, ItemFn,
    ItemFnView, Pat, PatIdent, PatIdentView, PatView, Stmt, StmtView, WherePredicate,
    WherePredicateView,
};
use crate::syntax::{
    lemma_pieces_view, lemma_segments_view, pieces_view, segments_view, PathArguments,
    PathArgumentsView, PathSegment, PathSegmentView, Piece, PieceView, Type, TypePath,
    TypePathView, TypeView,
};
use vstd::prelude::*;

verus! {

/// The texts one after the other, with `separator` between each two.
pub open spec fn joined(texts: Seq<Seq<char>>, separator: Seq<char>) -> Seq<char>
    decreases texts.len(),
{
    if texts.len() == 0 {
        Seq::empty()
    } else if texts.len() == 1 {
        texts[0]
    } else {
        joined(texts.drop_last(), separator) + separator + texts.last()
    }
}

/// The text of a type.
pub open spec fn type_text(ty: TypeView) -> Seq<char>
    decreases ty,
{
    match ty {
        TypeView::Path(type_path) => type_path_text(type_path),
        TypeView::Other(pieces) => pieces_text(pieces),
    }
}

/// The texts of pieces, one after the other.
pub open spec fn pieces_text(pieces: Seq<PieceView>) -> Seq<char>
    decreases pieces,
{
    if pieces.len() == 0 {
        Seq::empty()
    } else {
        pieces_text(pieces.drop_last()) + piece_text(pieces.last())
    }
}

/// The text of a piece.
pub open spec fn piece_text(piece: PieceView) -> Seq<char>
    decreases piece,
{
    match piece {
        PieceView::Text(text) => text,
        PieceView::Type(ty) => type_text(ty),
        PieceView::Group(pieces) => pieces_text(pieces),
    }
}

/// The texts of generic arguments with `, ` between each two.
pub open spec fn arguments_text(arguments: Seq<PieceView>) -> Seq<char>
    decreases arguments,
{
    if arguments.len() == 0 {
        Seq::empty()
    } else if arguments.len() == 1 {
        piece_text(arguments[0])
    } else {
        arguments_text(arguments.drop_last()) + ", "@ + piece_text(arguments.last())
    }
}

/// The text of a segment: the identifier, and then the arguments between `<` and
/// `>`, or the arguments of a function trait as they are written.
pub open spec fn path_segment_text(segment: PathSegmentView) -> Seq<char>
    decreases segment,
{
    segment.ident + match segment.arguments {
        PathArgumentsView::Empty => Seq::empty(),
        PathArgumentsView::AngleBracketed(arguments) => "<"@ + arguments_text(arguments) + ">"@,
        PathArgumentsView::Parenthesized(pieces) => pieces_text(pieces),
    }
}

/// The texts of segments with `::` between each two.
pub open spec fn segments_text(segments: Seq<PathSegmentView>) -> Seq<char>
    decreases segments,
{
    if segments.len() == 0 {
        Seq::empty()
    } else if segments.len() == 1 {
        path_segment_text(segments[0])
    } else {
        segments_text(segments.drop_last()) + "::"@ + path_segment_text(segments.last())
    }
}

/// The text of a path: the qualified-self prefix and `::` where there is one, else
/// `::` where the path starts with it, and then the segments.
pub open spec fn type_path_text(type_path: TypePathView) -> Seq<char>
    decreases type_path,
{
    (match type_path.qself {
        Some(pieces) => pieces_text(pieces) + "::"@,
        None => if type_path.leading_colon {
            "::"@
        } else {
            Seq::empty()
        },
    }) + segments_text(type_path.segments)
}

/// The text of a generic parameter. A lifetime gets its apostrophe.
pub open spec fn generic_param_text(generic_param: GenericParamView) -> Seq<char> {
    match generic_param {
        GenericParamView::Verbatim(text) => text,
        GenericParamView::Lifetime(name) => "'"@ + name,
        GenericParamView::Type(name) => name,
    }
}

/// The text of a bound.
pub open spec fn bound_text(bound: BoundView) -> Seq<char> {
    match bound {
        BoundView::AsRefStr => "AsRef<str>"@,
        BoundView::AsRefPath => "AsRef<std::path::Path>"@,
        BoundView::AsRefSlice(ty) => "AsRef<["@ + type_text(ty) + "]>"@,
        BoundView::IntoIterator(ty) => "IntoIterator<Item = "@ + type_text(ty) + ">"@,
        BoundView::IntoArrayView1(lifetime, ty) => "Into<ndarray::ArrayView1<'"@ + lifetime + ", "@
            + type_text(ty) + ">>"@,
    }
}

/// The text of a predicate.
pub open spec fn where_predicate_text(where_predicate: WherePredicateView) -> Seq<char> {
    match where_predicate {
        WherePredicateView::Verbatim(text) => text,
        WherePredicateView::Bounded { ty, bound } => ty + ": "@ + bound_text(bound),
    }
}

/// The name of the method of a conversion.
pub open spec fn conversion_text(conversion: Conversion) -> Seq<char> {
    match conversion {
        Conversion::AsRef => "as_ref"@,
        Conversion::IntoIter => "into_iter"@,
        Conversion::Into => "into"@,
    }
}

/// The text of a statement.
pub open spec fn stmt_text(stmt: StmtView) -> Seq<char> {
    match stmt {
        StmtView::Verbatim(text) => text,
        StmtView::Rebind { ident, conversion } => "let "@ + ident + " = "@ + ident + "."@
            + conversion_text(conversion) + "();"@,
    }
}

/// The text of a pattern that binds one identifier.
pub open spec fn pat_ident_text(pat_ident: PatIdentView) -> Seq<char> {
    (if pat_ident.by_ref {
        "ref "@
    } else {
        Seq::empty()
    }) + (if pat_ident.mutability {
        "mut "@
    } else {
        Seq::empty()
    }) + pat_ident.ident + match pat_ident.subpat {
        Some(subpat) => " @ "@ + subpat,
        None => Seq::empty(),
    }
}

/// The text of a pattern.
pub open spec fn pat_text(pat: PatView) -> Seq<char> {
    match pat {
        PatView::Ident(pat_ident) => pat_ident_text(pat_ident),
        PatView::Other(text) => text,
    }
}

/// The texts one after the other, each followed by a space.
pub open spec fn spaced(texts: Seq<Seq<char>>) -> Seq<char>
    decreases texts.len(),
{
    if texts.len() == 0 {
        Seq::empty()
    } else {
        spaced(texts.drop_last()) + texts.last() + " "@
    }
}

/// The text of a parameter.
pub open spec fn fn_arg_text(fn_arg: FnArgView) -> Seq<char> {
    match fn_arg {
        FnArgView::Receiver(text) => text,
        FnArgView::Typed(pat_type) => spaced(pat_type.attrs) + pat_text(pat_type.pat) + ": "@
            + type_text(pat_type.ty),
    }
}

/// Whether a generic parameter is a lifetime.
pub open spec fn is_lifetime(generic_param: GenericParamView) -> bool {
    match generic_param {
        GenericParamView::Verbatim(text) => text.len() > 0 && text[0] == '\'',
        GenericParamView::Lifetime(_) => true,
        GenericParamView::Type(_) => false,
    }
}

/// The texts of the generic parameters that are lifetimes, or of those that are
/// not, in their order.
pub open spec fn generic_param_texts(
    generic_params: Seq<GenericParamView>,
    lifetimes: bool,
) -> Seq<Seq<char>>
    decreases generic_params.len(),
{
    if generic_params.len() == 0 {
        Seq::empty()
    } else {
        let texts = generic_param_texts(generic_params.drop_last(), lifetimes);
        if is_lifetime(generic_params.last()) == lifetimes {
            texts.push(generic_param_text(generic_params.last()))
        } else {
            texts
        }
    }
}

/// The text of the generic parameters of a function: nothing where there are none,
/// else the parameters between `<` and `>`. The lifetimes come first, as a
/// declaration has to list them; otherwise the order stays.
pub open spec fn generics_text(generic_params: Seq<GenericParamView>) -> Seq<char> {
    if generic_params.len() == 0 {
        Seq::empty()
    } else {
        "<"@ + joined(
            generic_param_texts(generic_params, true) + generic_param_texts(generic_params, false),
            ", "@,
        ) + ">"@
    }
}

/// The texts of parameters, in their order.
pub open spec fn fn_arg_texts(fn_args: Seq<FnArgView>) -> Seq<Seq<char>> {
    fn_args.map_values(|fn_arg: FnArgView| fn_arg_text(fn_arg))
}

/// The texts of predicates, in their order.
pub open spec fn where_predicate_texts(where_predicates: Seq<WherePredicateView>) -> Seq<
    Seq<char>,
> {
    where_predicates.map_values(
        |where_predicate: WherePredicateView| where_predicate_text(where_predicate),
    )
}

/// The texts of statements, in their order.
pub open spec fn stmt_texts(stmts: Seq<StmtView>) -> Seq<Seq<char>> {
    stmts.map_values(|stmt: StmtView| stmt_text(stmt))
}

/// The text of the parameters of a function, with the variadic parameter at the
/// end where there is one.
pub open spec fn inputs_text(item_fn: ItemFnView) -> Seq<char> {
    joined(
        fn_arg_texts(item_fn.sig.inputs) + match item_fn.sig.variadic {
            Some(text) => seq![text],
            None => Seq::empty(),
        },
        ", "@,
    )
}

/// The text of the `where` clause of a function: nothing where it has no
/// predicates.
pub open spec fn where_clause_text(item_fn: ItemFnView) -> Seq<char> {
    match item_fn.sig.generics.where_clause {
        Some(where_clause) => if where_clause.predicates.len() == 0 {
            Seq::empty()
        } else {
            " where "@ + joined(where_predicate_texts(where_clause.predicates), ", "@)
        },
        None => Seq::empty(),
    }
}

/// The text before `fn`: the visibility and the qualifiers, each followed by a
/// space where it is not empty.
pub open spec fn lead_text(text: Seq<char>) -> Seq<char> {
    if text.len() == 0 {
        Seq::empty()
    } else {
        text + " "@
    }
}

/// The text of a function.
pub open spec fn item_fn_text(item_fn: ItemFnView) -> Seq<char> {
    spaced(item_fn.attrs) + lead_text(item_fn.vis) + lead_text(item_fn.sig.qualifiers) + "fn "@
        + item_fn.sig.ident + generics_text(item_fn.sig.generics.params) + "("@ + inputs_text(
        item_fn,
    ) + ")"@ + (match item_fn.sig.output {
        Some(text) => " -> "@ + text,
        None => Seq::empty(),
    }) + where_clause_text(item_fn) + " { "@ + spaced(stmt_texts(item_fn.block.stmts)) + "}"@
}

/// The texts one after the other, with `separator` between each two.
pub fn join(texts: &Vec<String>, separator: &str) -> (text: String)
    ensures
        text@ == joined(views(*texts), separator@),
{
    let mut text = String::new();
    let ghost all = views(*texts);
    let mut i: usize = 0;
    while i < texts.len()
        invariant
            i <= texts.len(),
            all == views(*texts),
            text@ == joined(all.take(i as int), separator@),
        decreases texts.len() - i,
    {
        let ghost before = text@;
        if i > 0 {
            text.append(separator);
        }
        text.append(texts[i].as_str());
        proof {
            let upto = all.take(i + 1);
            assert(upto.drop_last() =~= all.take(i as int));
            assert(upto.last() == texts@[i as int]@);
            if i == 0 {
                assert(before =~= Seq::<char>::empty());
                assert(text@ =~= upto[0]);
            }
        }
        i += 1;
    }
    assert(all.take(i as int) =~= all);
    text
}

/// The texts one after the other, each followed by a space.
pub fn join_spaced(texts: &Vec<String>) -> (text: String)
    ensures
        text@ == spaced(views(*texts)),
{
    let mut text = String::new();
    let ghost all = views(*texts);
    let mut i: usize = 0;
    while i < texts.len()
        invariant
            i <= texts.len(),
            all == views(*texts),
            text@ == spaced(all.take(i as int)),
        decreases texts.len() - i,
    {
        text.append(texts[i].as_str());
        text.append(" ");
        proof {
            let upto = all.take(i + 1);
            assert(upto.drop_last() =~= all.take(i as int));
            assert(upto.last() == texts@[i as int]@);
        }
        i += 1;
    }
    assert(all.take(i as int) =~= all);
    text
}

/// Appends the text of a type to `out`.
pub fn write_type(out: &mut String, ty: &Type)
    ensures
        final(out)@ == old(out)@ + type_text(ty@),
    decreases ty,
{
    match ty {
        Type::Path(type_path) => write_type_path(out, type_path),
        Type::Other(pieces) => write_pieces(out, pieces),
    }
}

/// Appends the texts of pieces to `out`, one after the other.
pub fn write_pieces(out: &mut String, pieces: &Vec<Piece>)
    ensures
        final(out)@ == old(out)@ + pieces_text(pieces_view(*pieces)),
    decreases pieces,
{
    let ghost all = pieces_view(*pieces);
    let mut i: usize = 0;
    proof {
        lemma_pieces_view(*pieces);
        assert(out@ =~= old(out)@ + pieces_text(all.take(0)));
    }
    while i < pieces.len()
        invariant
            i <= pieces.len(),
            all == pieces_view(*pieces),
            all.len() == pieces.len(),
            forall|j: int| 0 <= j < all.len() ==> #[trigger] all[j] == pieces@[j]@,
            out@ == old(out)@ + pieces_text(all.take(i as int)),
        decreases pieces.len() - i,
    {
        write_piece(out, &pieces[i]);
        proof {
            let upto = all.take(i + 1);
            assert(upto.drop_last() =~= all.take(i as int));
            assert(upto.last() == all[i as int]);
            assert(out@ =~= old(out)@ + pieces_text(upto));
        }
        i += 1;
    }
    assert(all.take(i as int) =~= all);
}

/// Appends the text of a piece to `out`.
pub fn write_piece(out: &mut String, piece: &Piece)
    ensures
        final(out)@ == old(out)@ + piece_text(piece@),
    decreases piece,
{
    match piece {
        Piece::Text(text) => out.append(text.as_str()),
        Piece::Type(ty) => write_type(out, ty),
        Piece::Group(pieces) => write_pieces(out, pieces),
    }
}

/// Appends the texts of generic arguments to `out`, with `, ` between each two.
pub fn write_arguments(out: &mut String, arguments: &Vec<Piece>)
    ensures
        final(out)@ == old(out)@ + arguments_text(pieces_view(*arguments)),
    decreases arguments,
{
    let ghost all = pieces_view(*arguments);
    let mut i: usize = 0;
    proof {
        lemma_pieces_view(*arguments);
        assert(out@ =~= old(out)@ + arguments_text(all.take(0)));
    }
    while i < arguments.len()
        invariant
            i <= arguments.len(),
            all == pieces_view(*arguments),
            all.len() == arguments.len(),
            forall|j: int| 0 <= j < all.len() ==> #[trigger] all[j] == arguments@[j]@,
            out@ == old(out)@ + arguments_text(all.take(i as int)),
        decreases arguments.len() - i,
    {
        if i > 0 {
            out.append(", ");
        }
        write_piece(out, &arguments[i]);
        proof {
            let upto = all.take(i + 1);
            assert(upto.drop_last() =~= all.take(i as int));
            assert(upto.last() == all[i as int]);
            if i == 0 {
                assert(arguments_text(all.take(0)) =~= Seq::<char>::empty());
            }
            assert(out@ =~= old(out)@ + arguments_text(upto));
        }
        i += 1;
    }
    assert(all.take(i as int) =~= all);
}

/// Appends the text of a segment of a path to `out`.
pub fn write_path_segment(out: &mut String, segment: &PathSegment)
    ensures
        final(out)@ == old(out)@ + path_segment_text(segment@),
    decreases segment,
{
    out.append(segment.ident.as_str());
    match &segment.arguments {
        PathArguments::Empty => {
            assert(out@ =~= old(out)@ + path_segment_text(segment@));
        },
        PathArguments::AngleBracketed(arguments) => {
            out.append("<");
            write_arguments(out, arguments);
            out.append(">");
            assert(out@ =~= old(out)@ + path_segment_text(segment@));
        },
        PathArguments::Parenthesized(pieces) => {
            write_pieces(out, pieces);
            assert(out@ =~= old(out)@ + path_segment_text(segment@));
        },
    }
}

/// Appends the texts of the segments of a path to `out`, with `::` between each
/// two.
pub fn write_segments(out: &mut String, segments: &Vec<PathSegment>)
    ensures
        final(out)@ == old(out)@ + segments_text(segments_view(*segments)),
    decreases segments,
{
    let ghost all = segments_view(*segments);
    let mut i: usize = 0;
    proof {
        lemma_segments_view(*segments);
        assert(out@ =~= old(out)@ + segments_text(all.take(0)));
    }
    while i < segments.len()
        invariant
            i <= segments.len(),
            all == segments_view(*segments),
            all.len() == segments.len(),
            forall|j: int| 0 <= j < all.len() ==> #[trigger] all[j] == segments@[j]@,
            out@ == old(out)@ + segments_text(all.take(i as int)),
        decreases segments.len() - i,
    {
        if i > 0 {
            out.append("::");
        }
        write_path_segment(out, &segments[i]);
        proof {
            let upto = all.take(i + 1);
            assert(upto.drop_last() =~= all.take(i as int));
            assert(upto.last() == all[i as int]);
            if i == 0 {
                assert(segments_text(all.take(0)) =~= Seq::<char>::empty());
            }
            assert(out@ =~= old(out)@ + segments_text(upto));
        }
        i += 1;
    }
    assert(all.take(i as int) =~= all);
}

/// Appends the text of a path to `out`.
pub fn write_type_path(out: &mut String, type_path: &TypePath)
    ensures
        final(out)@ == old(out)@ + type_path_text(type_path@),
    decreases type_path,
{
    match &type_path.qself {
        Some(pieces) => {
            write_pieces(out, pieces);
            out.append("::");
        },
        None => {
            if type_path.leading_colon {
                out.append("::");
            }
        },
    }
    write_segments(out, &type_path.segments);
    assert(out@ =~= old(out)@ + type_path_text(type_path@));
}

impl Type {
    /// The source text of the type.
    pub fn to_text(&self) -> (text: String)
        ensures
            text@ == type_text(self@),
    {
        let mut text = String::new();
        write_type(&mut text, self);
        assert(text@ =~= type_text(self@));
        text
    }
}

impl TypePath {
    /// The source text of the path.
    pub fn to_text(&self) -> (text: String)
        ensures
            text@ == type_path_text(self@),
    {
        let mut text = String::new();
        write_type_path(&mut text, self);
        assert(text@ =~= type_path_text(self@));
        text
    }
}

impl GenericParam {
    /// The source text of the generic parameter.
    pub fn to_text(&self) -> (text: String)
        ensures
            text@ == generic_param_text(self@),
    {
        match self {
            GenericParam::Verbatim(text) => text.clone(),
            GenericParam::Lifetime(name) => {
                let mut text = String::from_str("'");
                text.append(name.as_str());
                text
            },
            GenericParam::Type(name) => name.clone(),
        }
    }

    /// Whether the generic parameter is a lifetime.
    pub fn is_lifetime(&self) -> (lifetime: bool)
        ensures
            lifetime == is_lifetime(self@),
    {
        match self {
            GenericParam::Verbatim(text) => {
                text.as_str().unicode_len() > 0 && text.as_str().get_char(0) == '\''
            },
            GenericParam::Lifetime(_) => true,
            GenericParam::Type(_) => false,
        }
    }
}

impl Bound {
    /// The source text of the bound.
    pub fn to_text(&self) -> (text: String)
        ensures
            text@ == bound_text(self@),
    {
        match self {
            Bound::AsRefStr => String::from_str("AsRef<str>"),
            Bound::AsRefPath => String::from_str("AsRef<std::path::Path>"),
            Bound::AsRefSlice(ty) => {
                let mut text = String::from_str("AsRef<[");
                write_type(&mut text, ty);
                text.append("]>");
                text
            },
            Bound::IntoIterator(ty) => {
                let mut text = String::from_str("IntoIterator<Item = ");
                write_type(&mut text, ty);
                text.append(">");
                text
            },
            Bound::IntoArrayView1(lifetime, ty) => {
                let mut text = String::from_str("Into<ndarray::ArrayView1<'");
                text.append(lifetime.as_str());
                text.append(", ");
                write_type(&mut text, ty);
                text.append(">>");
                text
            },
        }
    }
}

impl WherePredicate {
    /// The source text of the predicate.
    pub fn to_text(&self) -> (text: String)
        ensures
            text@ == where_predicate_text(self@),
    {
        match self {
            WherePredicate::Verbatim(text) => text.clone(),
            WherePredicate::Bounded { ty, bound } => {
                let mut text = ty.clone();
                text.append(": ");
                let bound = bound.to_text();
                text.append(bound.as_str());
                text
            },
        }
    }
}

impl Conversion {
    /// The name of the method of the conversion.
    pub fn as_str(&self) -> (name: &'static str)
        ensures
            name@ == conversion_text(*self),
    {
        match self {
            Conversion::AsRef => "as_ref",
            Conversion::IntoIter => "into_iter",
            Conversion::Into => "into",
        }
    }
}

impl Stmt {
    /// The source text of the statement.
    pub fn to_text(&self) -> (text: String)
        ensures
            text@ == stmt_text(self@),
    {
        match self {
            Stmt::Verbatim(text) => text.clone(),
            Stmt::Rebind { ident, conversion } => {
                let mut text = String::from_str("let ");
                text.append(ident.as_str());
                text.append(" = ");
                text.append(ident.as_str());
                text.append(".");
                text.append(conversion.as_str());
                text.append("();");
                text
            },
        }
    }
}

impl PatIdent {
    /// The source text of the pattern.
    pub fn to_text(&self) -> (text: String)
        ensures
            text@ == pat_ident_text(self@),
    {
        let mut text = String::new();
        if self.by_ref {
            text.append("ref ");
        }
        if self.mutability {
            text.append("mut ");
        }
        text.append(self.ident.as_str());
        match &self.subpat {
            Some(subpat) => {
                text.append(" @ ");
                text.append(subpat.as_str());
            },
            None => {},
        }
        assert(text@ =~= pat_ident_text(self@));
        text
    }
}

impl Pat {
    /// The source text of the pattern.
    pub fn to_text(&self) -> (text: String)
        ensures
            text@ == pat_text(self@),
    {
        match self {
            Pat::Ident(pat_ident) => pat_ident.to_text(),
            Pat::Other(text) => text.clone(),
        }
    }
}

impl FnArg {
    /// The source text of the parameter.
    pub fn to_text(&self) -> (text: String)
        ensures
            text@ == fn_arg_text(self@),
    {
        match self {
            FnArg::Receiver(text) => text.clone(),
            FnArg::Typed(pat_type) => {
                let mut text = join_spaced(&pat_type.attrs);
                let pat = pat_type.pat.to_text();
                text.append(pat.as_str());
                text.append(": ");
                write_type(&mut text, &pat_type.ty);
                text
            },
        }
    }
}

/// The texts of the generic parameters that are lifetimes, or of those that are
/// not, appended to `texts` in their order.
fn push_generic_param_texts(
    texts: &mut Vec<String>,
    generic_params: &Vec<GenericParam>,
    lifetimes: bool,
)
    ensures
        views(*final(texts)) == views(*old(texts)) + generic_param_texts(
            views(*generic_params),
            lifetimes,
        ),
{
    let ghost all = views(*generic_params);
    let mut i: usize = 0;
    assert(views(*texts) =~= views(*old(texts)) + generic_param_texts(all.take(0), lifetimes));
    while i < generic_params.len()
        invariant
            i <= generic_params.len(),
            all == views(*generic_params),
            views(*texts) == views(*old(texts)) + generic_param_texts(
                all.take(i as int),
                lifetimes,
            ),
        decreases generic_params.len() - i,
    {
        let ghost before = views(*texts);
        if generic_params[i].is_lifetime() == lifetimes {
            texts.push(generic_params[i].to_text());
            assert(views(*texts) =~= before.push(generic_param_text(all[i as int])));
        }
        proof {
            let upto = all.take(i + 1);
            assert(upto.drop_last() =~= all.take(i as int));
            assert(upto.last() == all[i as int]);
            assert(views(*texts) =~= views(*old(texts)) + generic_param_texts(upto, lifetimes));
        }
        i += 1;
    }
    assert(all.take(i as int) =~= all);
}

/// The source text of the generic parameters of a function.
pub fn generics_to_text(generic_params: &Vec<GenericParam>) -> (text: String)
    ensures
        text@ == generics_text(views(*generic_params)),
{
    if generic_params.len() == 0 {
        return String::new();
    }
    let mut texts: Vec<String> = Vec::new();
    assert(views(texts) =~= Seq::<Seq<char>>::empty());
    push_generic_param_texts(&mut texts, generic_params, true);
    push_generic_param_texts(&mut texts, generic_params, false);
    assert(views(texts) =~= generic_param_texts(views(*generic_params), true)
        + generic_param_texts(views(*generic_params), false));
    let mut text = String::from_str("<");
    let inner = join(&texts, ", ");
    text.append(inner.as_str());
    text.append(">");
    text
}

impl ItemFn {
    /// The source text of the function.
    pub fn to_text(&self) -> (text: String)
        ensures
            text@ == item_fn_text(self@),
    {
        let mut text = join_spaced(&self.attrs);
        if self.vis.as_str().unicode_len() > 0 {
            text.append(self.vis.as_str());
            text.append(" ");
        }
        if self.sig.qualifiers.as_str().unicode_len() > 0 {
            text.append(self.sig.qualifiers.as_str());
            text.append(" ");
        }
        text.append("fn ");
        text.append(self.sig.ident.as_str());
        let generics = generics_to_text(&self.sig.generics.params);
        text.append(generics.as_str());
        text.append("(");
        let inputs = self.inputs_to_text();
        text.append(inputs.as_str());
        text.append(")");
        match &self.sig.output {
            Some(output) => {
                text.append(" -> ");
                text.append(output.as_str());
            },
            None => {},
        }
        let where_clause = self.where_clause_to_text();
        text.append(where_clause.as_str());
        text.append(" { ");
        let stmts = self.stmts_to_text();
        text.append(stmts.as_str());
        text.append("}");
        assert(text@ =~= item_fn_text(self@));
        text
    }

    /// The source text of the parameters of the function.
    pub fn inputs_to_text(&self) -> (text: String)
        ensures
            text@ == inputs_text(self@),
    {
        let mut texts: Vec<String> = Vec::new();
        let ghost all = self@.sig.inputs;
        let mut i: usize = 0;
        assert(views(texts) =~= fn_arg_texts(all.take(0)));
        while i < self.sig.inputs.len()
            invariant
                i <= self.sig.inputs.len(),
                all == views(self.sig.inputs),
                views(texts) == fn_arg_texts(all.take(i as int)),
            decreases self.sig.inputs.len() - i,
        {
            let ghost before = views(texts);
            let text = self.sig.inputs[i].to_text();
            texts.push(text);
            proof {
                assert(views(texts) =~= before.push(fn_arg_text(all[i as int])));
                assert(views(texts) =~= fn_arg_texts(all.take(i + 1)));
            }
            i += 1;
        }
        assert(all.take(i as int) =~= all);
        let ghost typed = views(texts);
        match &self.sig.variadic {
            Some(variadic) => {
                texts.push(variadic.clone());
                assert(views(texts) =~= typed + seq![variadic@]);
            },
            None => {
                assert(views(texts) =~= typed + Seq::<Seq<char>>::empty());
            },
        }
        join(&texts, ", ")
    }

    /// The source text of the `where` clause of the function.
    pub fn where_clause_to_text(&self) -> (text: String)
        ensures
            text@ == where_clause_text(self@),
    {
        match &self.sig.generics.where_clause {
            Some(where_clause) => {
                if where_clause.predicates.len() == 0 {
                    return String::new();
                }
                let mut texts: Vec<String> = Vec::new();
                let ghost all = views(where_clause.predicates);
                let mut i: usize = 0;
                assert(views(texts) =~= where_predicate_texts(all.take(0)));
                while i < where_clause.predicates.len()
                    invariant
                        i <= where_clause.predicates.len(),
                        all == views(where_clause.predicates),
                        views(texts) == where_predicate_texts(all.take(i as int)),
                    decreases where_clause.predicates.len() - i,
                {
                    let ghost before = views(texts);
                    let text = where_clause.predicates[i].to_text();
                    texts.push(text);
                    proof {
                        assert(views(texts) =~= before.push(where_predicate_text(all[i as int])));
                        assert(views(texts) =~= where_predicate_texts(all.take(i + 1)));
                    }
                    i += 1;
                }
                assert(all.take(i as int) =~= all);
                let mut text = String::from_str(" where ");
                let inner = join(&texts, ", ");
                text.append(inner.as_str());
                text
            },
            None => String::new(),
        }
    }

    /// The source text of the statements of the function, each followed by a
    /// space.
    pub fn stmts_to_text(&self) -> (text: String)
        ensures
            text@ == spaced(stmt_texts(self@.block.stmts)),
    {
        let mut texts: Vec<String> = Vec::new();
        let ghost all = self@.block.stmts;
        let mut i: usize = 0;
        assert(views(texts) =~= stmt_texts(all.take(0)));
        while i < self.block.stmts.len()
            invariant
                i <= self.block.stmts.len(),
                all == views(self.block.stmts),
                views(texts) == stmt_texts(all.take(i as int)),
            decreases self.block.stmts.len() - i,
        {
            let ghost before = views(texts);
            let text = self.block.stmts[i].to_text();
            texts.push(text);
            proof {
                assert(views(texts) =~= before.push(stmt_text(all[i as int])));
                assert(views(texts) =~= stmt_texts(all.take(i + 1)));
            }
            i += 1;
        }
        assert(all.take(i as int) =~= all);
        join_spaced(&texts)
    }
}

} // verus!
