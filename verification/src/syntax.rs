//! The syntax tree of one function definition, as far as the rewriting reads it.
//!
//! Types are kept as trees, because placeholders are looked for at every depth.
//! Everything else that a function definition holds (attributes, visibility, return
//! type, the statements of the body) is carried through as source text.
//!
//! Every type here has a view, a value made of sequences in place of vectors and
//! strings, and the contracts of the crate are stated over these views.

use vstd::prelude::*;

verus! {

/// A stretch of source inside a type or a generic argument list.
#[derive(Debug, PartialEq, Eq)]
pub enum Piece {
    /// Source text that holds no type, such as `&'a mut `, `'static` or `3`.
    Text(String),
    /// A type.
    Type(Type),
    /// Pieces that together form one generic argument that is not itself a type,
    /// such as `Item = T`.
    Group(Vec<Piece>),
}

/// A type.
#[derive(Debug, PartialEq, Eq)]
pub enum Type {
    /// A path such as `usize`, `Vec<T>` or `std::path::Path`.
    Path(TypePath),
    /// Any other type, as the text and the types that it is written with: `&[T]`
    /// is the text `&[`, the type `T` and the text `]`.
    Other(Vec<Piece>),
}

/// A path that names a type.
#[derive(Debug, PartialEq, Eq)]
pub struct TypePath {
    /// The qualified-self prefix with its angle brackets, such as `<T as Iterator>`,
    /// where the path has one. The segments then are those that follow it.
    pub qself: Option<Vec<Piece>>,
    /// Whether the path starts with `::`.
    pub leading_colon: bool,
    /// The segments between the `::` separators.
    pub segments: Vec<PathSegment>,
}

/// One segment of a path: an identifier and its generic arguments.
#[derive(Debug, PartialEq, Eq)]
pub struct PathSegment {
    pub ident: String,
    pub arguments: PathArguments,
}

/// The generic arguments of a path segment.
#[derive(Debug, PartialEq, Eq)]
pub enum PathArguments {
    /// No arguments, as in `usize`.
    Empty,
    /// The arguments between `<` and `>`, one piece for each.
    AngleBracketed(Vec<Piece>),
    /// The arguments of a function trait as they are written, such as
    /// `(A, B) -> C`.
    Parenthesized(Vec<Piece>),
}

/// The view of a [`Piece`].
pub enum PieceView {
    Text(Seq<char>),
    Type(TypeView),
    Group(Seq<PieceView>),
}

/// The view of a [`Type`].
pub enum TypeView {
    Path(TypePathView),
    Other(Seq<PieceView>),
}

/// The view of a [`TypePath`].
pub struct TypePathView {
    pub qself: Option<Seq<PieceView>>,
    pub leading_colon: bool,
    pub segments: Seq<PathSegmentView>,
}

/// The view of a [`PathSegment`].
pub struct PathSegmentView {
    pub ident: Seq<char>,
    pub arguments: PathArgumentsView,
}

/// The view of [`PathArguments`].
pub enum PathArgumentsView {
    Empty,
    AngleBracketed(Seq<PieceView>),
    Parenthesized(Seq<PieceView>),
}

/// The views of the pieces of a vector, in order.
pub open spec fn pieces_view(pieces: Vec<Piece>) -> Seq<PieceView>
    decreases pieces,
{
    Seq::new(
        pieces@.len(),
        |i: int|
            if 0 <= i < pieces@.len() {
                pieces@[i].view()
            } else {
                arbitrary()
            },
    )
}

/// The views of the segments of a vector, in order.
pub open spec fn segments_view(segments: Vec<PathSegment>) -> Seq<PathSegmentView>
    decreases segments,
{
    Seq::new(
        segments@.len(),
        |i: int|
            if 0 <= i < segments@.len() {
                segments@[i].view()
            } else {
                arbitrary()
            },
    )
}

impl View for Piece {
    type V = PieceView;

    open spec fn view(&self) -> PieceView
        decreases self,
    {
        match self {
            Piece::Text(text) => PieceView::Text(text@),
            Piece::Type(ty) => PieceView::Type(ty.view()),
            Piece::Group(pieces) => PieceView::Group(pieces_view(*pieces)),
        }
    }
}

impl View for Type {
    type V = TypeView;

    open spec fn view(&self) -> TypeView
        decreases self,
    {
        match self {
            Type::Path(path) => TypeView::Path(path.view()),
            Type::Other(pieces) => TypeView::Other(pieces_view(*pieces)),
        }
    }
}

impl View for TypePath {
    type V = TypePathView;

    open spec fn view(&self) -> TypePathView
        decreases self,
    {
        TypePathView {
            qself: match self.qself {
                Some(pieces) => Some(pieces_view(pieces)),
                None => None,
            },
            leading_colon: self.leading_colon,
            segments: segments_view(self.segments),
        }
    }
}

impl View for PathSegment {
    type V = PathSegmentView;

    open spec fn view(&self) -> PathSegmentView
        decreases self,
    {
        PathSegmentView { ident: self.ident@, arguments: self.arguments.view() }
    }
}

impl View for PathArguments {
    type V = PathArgumentsView;

    open spec fn view(&self) -> PathArgumentsView
        decreases self,
    {
        match self {
            PathArguments::Empty => PathArgumentsView::Empty,
            PathArguments::AngleBracketed(pieces) => PathArgumentsView::AngleBracketed(
                pieces_view(*pieces),
            ),
            PathArguments::Parenthesized(pieces) => PathArgumentsView::Parenthesized(
                pieces_view(*pieces),
            ),
        }
    }
}

/// The view of a vector of pieces holds the view of each piece at its place.
pub proof fn lemma_pieces_view(pieces: Vec<Piece>)
    ensures
        pieces_view(pieces).len() == pieces@.len(),
        forall|i: int| 0 <= i < pieces@.len() ==> #[trigger] pieces_view(pieces)[i] == pieces@[i]@,
{
    reveal_with_fuel(pieces_view, 3);
}

/// The view of a vector of segments holds the view of each segment at its place.
pub proof fn lemma_segments_view(segments: Vec<PathSegment>)
    ensures
        segments_view(segments).len() == segments@.len(),
        forall|i: int|
            0 <= i < segments@.len() ==> #[trigger] segments_view(segments)[i] == segments@[i]@,
{
    reveal_with_fuel(segments_view, 3);
}

/// The path that is a single identifier.
pub open spec fn ident_path(ident: Seq<char>) -> TypePathView {
    TypePathView {
        qself: None,
        leading_colon: false,
        segments: seq![PathSegmentView { ident, arguments: PathArgumentsView::Empty }],
    }
}

/// The path that is a single identifier with types as its generic arguments.
pub open spec fn generic_path(ident: Seq<char>, arguments: Seq<TypeView>) -> TypePathView {
    TypePathView {
        qself: None,
        leading_colon: false,
        segments: seq![
            PathSegmentView {
                ident,
                arguments: PathArgumentsView::AngleBracketed(
                    arguments.map_values(|ty: TypeView| PieceView::Type(ty)),
                ),
            },
        ],
    }
}

/// The views of the types of a vector, in order.
pub open spec fn types_view(types: Vec<Type>) -> Seq<TypeView> {
    types@.map_values(|ty: Type| ty@)
}

impl TypePath {
    /// The path that is the single identifier `ident`.
    pub fn from_ident(ident: String) -> (type_path: TypePath)
        ensures
            type_path@ == ident_path(ident@),
    {
        let mut segments: Vec<PathSegment> = Vec::new();
        segments.push(PathSegment { ident, arguments: PathArguments::Empty });
        let type_path = TypePath { qself: None, leading_colon: false, segments };
        proof {
            lemma_segments_view(segments);
            assert(type_path@.segments =~= ident_path(ident@).segments);
        }
        type_path
    }
}

impl Type {
    /// The type that is written as the single identifier `ident`, such as `usize`.
    pub fn path(ident: &str) -> (ty: Type)
        ensures
            ty@ == TypeView::Path(ident_path(ident@)),
    {
        Type::Path(TypePath::from_ident(String::from_str(ident)))
    }

    /// The type that is written as an identifier with types between angle
    /// brackets, such as `Vec<usize>`.
    pub fn generic(ident: &str, arguments: Vec<Type>) -> (ty: Type)
        ensures
            ty@ == TypeView::Path(generic_path(ident@, types_view(arguments))),
    {
        let mut pieces: Vec<Piece> = Vec::new();
        let mut i: usize = 0;
        while i < arguments.len()
            invariant
                i <= arguments.len(),
                pieces@.len() == i,
                forall|j: int| 0 <= j < i ==> pieces@[j]@ == PieceView::Type(arguments@[j]@),
            decreases arguments.len() - i,
        {
            pieces.push(Piece::Type(arguments[i].clone()));
            i += 1;
        }
        let mut segments: Vec<PathSegment> = Vec::new();
        segments.push(
            PathSegment {
                ident: String::from_str(ident),
                arguments: PathArguments::AngleBracketed(pieces),
            },
        );
        let type_path = TypePath { qself: None, leading_colon: false, segments };
        proof {
            lemma_pieces_view(pieces);
            lemma_segments_view(segments);
            let expected = generic_path(ident@, types_view(arguments));
            assert(pieces_view(pieces) =~= types_view(arguments).map_values(
                |ty: TypeView| PieceView::Type(ty),
            ));
            assert(type_path@.segments =~= expected.segments);
        }
        Type::Path(type_path)
    }

    /// The type that is written as `text`, which holds no type that is to be
    /// looked at, such as `&str`.
    pub fn verbatim(text: &str) -> (ty: Type)
        ensures
            ty@ == TypeView::Other(seq![PieceView::Text(text@)]),
    {
        let mut pieces: Vec<Piece> = Vec::new();
        pieces.push(Piece::Text(String::from_str(text)));
        proof {
            lemma_pieces_view(pieces);
            assert(pieces_view(pieces) =~= seq![PieceView::Text(text@)]);
        }
        Type::Other(pieces)
    }
}

/// A copy of `pieces` with the same views.
pub fn clone_pieces(pieces: &Vec<Piece>) -> (copy: Vec<Piece>)
    ensures
        pieces_view(copy) == pieces_view(*pieces),
    decreases pieces,
{
    let mut copy: Vec<Piece> = Vec::new();
    let mut i: usize = 0;
    while i < pieces.len()
        invariant
            i <= pieces.len(),
            copy@.len() == i,
            forall|j: int| 0 <= j < i ==> copy@[j]@ == pieces@[j]@,
        decreases pieces.len() - i,
    {
        copy.push(pieces[i].clone());
        i += 1;
    }
    assert(pieces_view(copy) =~= pieces_view(*pieces));
    copy
}

/// A copy of `segments` with the same views.
pub fn clone_segments(segments: &Vec<PathSegment>) -> (copy: Vec<PathSegment>)
    ensures
        segments_view(copy) == segments_view(*segments),
    decreases segments,
{
    let mut copy: Vec<PathSegment> = Vec::new();
    let mut i: usize = 0;
    while i < segments.len()
        invariant
            i <= segments.len(),
            copy@.len() == i,
            forall|j: int| 0 <= j < i ==> copy@[j]@ == segments@[j]@,
        decreases segments.len() - i,
    {
        copy.push(segments[i].clone());
        i += 1;
    }
    assert(segments_view(copy) =~= segments_view(*segments));
    copy
}

impl Clone for Piece {
    fn clone(&self) -> (copy: Self)
        ensures
            copy@ == self@,
        decreases self,
    {
        match self {
            Piece::Text(text) => Piece::Text(text.clone()),
            Piece::Type(ty) => Piece::Type(ty.clone()),
            Piece::Group(pieces) => Piece::Group(clone_pieces(pieces)),
        }
    }
}

impl Clone for Type {
    fn clone(&self) -> (copy: Self)
        ensures
            copy@ == self@,
        decreases self,
    {
        match self {
            Type::Path(path) => Type::Path(path.clone()),
            Type::Other(pieces) => Type::Other(clone_pieces(pieces)),
        }
    }
}

impl Clone for TypePath {
    fn clone(&self) -> (copy: Self)
        ensures
            copy@ == self@,
        decreases self,
    {
        let qself = match &self.qself {
            Some(pieces) => Some(clone_pieces(pieces)),
            None => None,
        };
        TypePath {
            qself,
            leading_colon: self.leading_colon,
            segments: clone_segments(&self.segments),
        }
    }
}

impl Clone for PathSegment {
    fn clone(&self) -> (copy: Self)
        ensures
            copy@ == self@,
        decreases self,
    {
        PathSegment { ident: self.ident.clone(), arguments: self.arguments.clone() }
    }
}

impl Clone for PathArguments {
    fn clone(&self) -> (copy: Self)
        ensures
            copy@ == self@,
        decreases self,
    {
        match self {
            PathArguments::Empty => PathArguments::Empty,
            PathArguments::AngleBracketed(pieces) => PathArguments::AngleBracketed(
                clone_pieces(pieces),
            ),
            PathArguments::Parenthesized(pieces) => PathArguments::Parenthesized(
                clone_pieces(pieces),
            ),
        }
    }
}

} // verus!
