//! The placeholder types and what each of them stands for.

use crate::error::{Error, ErrorKind, ErrorView};
use crate::item::{
    option_view, Bound, BoundView, Conversion, Stmt, StmtView, WherePredicate, WherePredicateView,
};
use crate::syntax::{
    PathArguments, PathArgumentsView, Piece, PieceView, Type, TypePath, TypePathView, TypeView,
};
use vstd::prelude::*;

verus! {

/// A placeholder type that a parameter may be declared with.
#[derive(Debug, Clone, Copy, PartialEq, Eq, Structural)]
pub enum Special {
    /// `AnyArray<T>`, any slice-like input: anything that can be viewed as a slice
    /// of `T`.
    AnyArray,
    /// `AnyString`, any text-like input: anything that can be viewed as a `str`.
    AnyString,
    /// `AnyPath`, any path-like input: anything that can be viewed as a file system
    /// path.
    AnyPath,
    /// `AnyIter<T>`, any iterator-like input: anything that can be turned into an
    /// iterator over `T`.
    AnyIter,
    /// `AnyNdArray<T>`, any input like a one-dimensional numeric array: anything
    /// that can be turned into a borrowed one-dimensional array view of `T`.
    AnyNdArray,
}

/// Whether a placeholder takes an element type between angle brackets.
#[derive(Debug, Clone, Copy, PartialEq, Eq, Structural)]
pub enum Arity {
    /// The placeholder is written alone, as in `AnyString`.
    Zero,
    /// The placeholder is written with exactly one type, as in `AnyIter<usize>`.
    ExactlyOne,
}

/// Whether `c` is an upper-case letter of the ASCII alphabet.
pub open spec fn is_ascii_upper(c: char) -> bool {
    'A' <= c && c <= 'Z'
}

/// The lower-case letter for an upper-case letter of the ASCII alphabet; any other
/// character stays as it is.
pub open spec fn ascii_lower(c: char) -> char {
    if is_ascii_upper(c) {
        ((c as u8) + 32) as char
    } else {
        c
    }
}

/// A camel-case name in snake case: every upper-case letter becomes lower case, and
/// every one but the first character gets an underscore in front of it.
pub open spec fn snake_case(text: Seq<char>) -> Seq<char>
    decreases text.len(),
{
    if text.len() == 0 {
        Seq::empty()
    } else {
        let head = snake_case(text.drop_last());
        let c = text.last();
        if text.len() > 1 && is_ascii_upper(c) {
            head.push('_').push(ascii_lower(c))
        } else {
            head.push(ascii_lower(c))
        }
    }
}

impl Special {
    /// The name that the placeholder is written with.
    pub open spec fn name(self) -> Seq<char> {
        match self {
            Special::AnyArray => "AnyArray"@,
            Special::AnyString => "AnyString"@,
            Special::AnyPath => "AnyPath"@,
            Special::AnyIter => "AnyIter"@,
            Special::AnyNdArray => "AnyNdArray"@,
        }
    }

    /// The placeholder that is written with `name`, if there is one. Names are
    /// matched exactly.
    pub open spec fn named(name: Seq<char>) -> Option<Special> {
        if name == "AnyArray"@ {
            Some(Special::AnyArray)
        } else if name == "AnyString"@ {
            Some(Special::AnyString)
        } else if name == "AnyPath"@ {
            Some(Special::AnyPath)
        } else if name == "AnyIter"@ {
            Some(Special::AnyIter)
        } else if name == "AnyNdArray"@ {
            Some(Special::AnyNdArray)
        } else {
            None
        }
    }

    /// The name in snake case, as it is used for lifetimes.
    pub open spec fn snake_name(self) -> Seq<char> {
        match self {
            Special::AnyArray => "any_array"@,
            Special::AnyString => "any_string"@,
            Special::AnyPath => "any_path"@,
            Special::AnyIter => "any_iter"@,
            Special::AnyNdArray => "any_nd_array"@,
        }
    }

    /// Whether the placeholder takes an element type.
    pub open spec fn spec_arity(self) -> Arity {
        match self {
            Special::AnyString | Special::AnyPath => Arity::Zero,
            Special::AnyArray | Special::AnyIter | Special::AnyNdArray => Arity::ExactlyOne,
        }
    }

    /// Whether the bound of the placeholder needs a lifetime of its own.
    pub open spec fn needs_lifetime(self) -> bool {
        self == Special::AnyNdArray
    }

    /// The method that turns an argument for the placeholder into its concrete
    /// form.
    pub open spec fn conversion(self) -> Conversion {
        match self {
            Special::AnyArray | Special::AnyString | Special::AnyPath => Conversion::AsRef,
            Special::AnyIter => Conversion::IntoIter,
            Special::AnyNdArray => Conversion::Into,
        }
    }

    /// Whether the placeholder may be written with the element type `sub_type`, or
    /// without one where `sub_type` is `None`.
    pub open spec fn arity_met<T>(self, sub_type: Option<T>) -> bool {
        match self.spec_arity() {
            Arity::Zero => sub_type is None,
            Arity::ExactlyOne => sub_type is Some,
        }
    }

    /// What a type parameter that stands for the placeholder must support.
    ///
    /// `lifetime` is read for `AnyNdArray` only.
    pub open spec fn bound(self, sub_type: Option<TypeView>, lifetime: Option<Seq<char>>) -> Result<
        BoundView,
        ErrorKind,
    > {
        match (self, sub_type) {
            (Special::AnyString, None) => Ok(BoundView::AsRefStr),
            (Special::AnyPath, None) => Ok(BoundView::AsRefPath),
            (Special::AnyArray, Some(ty)) => Ok(BoundView::AsRefSlice(ty)),
            (Special::AnyIter, Some(ty)) => Ok(BoundView::IntoIterator(ty)),
            (Special::AnyNdArray, Some(ty)) => Ok(BoundView::IntoArrayView1(lifetime->0, ty)),
            _ => Err(ErrorKind::ArityError),
        }
    }

    /// The predicate that binds the type parameter `generic` to what the placeholder
    /// stands for, or the error that the element type gives.
    pub open spec fn where_predicate(
        self,
        generic: Seq<char>,
        sub_type: Option<TypeView>,
        lifetime: Option<Seq<char>>,
        written: TypePathView,
    ) -> Result<WherePredicateView, ErrorView> {
        match self.bound(sub_type, lifetime) {
            Ok(bound) => Ok(WherePredicateView::Bounded { ty: generic, bound }),
            Err(kind) => Err(ErrorView { kind, special: self, type_path: written }),
        }
    }

    /// The statement that gives the parameter `name` its concrete form.
    pub open spec fn stmt(self, name: Seq<char>) -> StmtView {
        StmtView::Rebind { ident: name, conversion: self.conversion() }
    }

    /// The element type that the arguments of a placeholder hold: none without
    /// arguments, the one type between angle brackets, and an error for anything
    /// else.
    pub open spec fn sub_type(args: PathArgumentsView) -> Result<Option<TypeView>, ErrorKind> {
        match args {
            PathArgumentsView::Empty => Ok(None),
            PathArgumentsView::AngleBracketed(args) => {
                if args.len() != 1 {
                    Err(ErrorKind::ArityError)
                } else {
                    match args[0] {
                        PieceView::Type(ty) => Ok(Some(ty)),
                        _ => Err(ErrorKind::TypeKindError),
                    }
                }
            },
            PathArgumentsView::Parenthesized(_) => Err(ErrorKind::ShapeError),
        }
    }

    /// The placeholder that a path is named after: the one whose name is the
    /// identifier of the last segment.
    pub open spec fn resembled(type_path: TypePathView) -> Option<Special> {
        if type_path.segments.len() == 0 {
            None
        } else {
            Special::named(type_path.segments.last().ident)
        }
    }

    /// Reads a path as a placeholder.
    ///
    /// A path that is not named after a placeholder is none (`Ok(None)`). One that
    /// is must be a single segment without a qualified-self prefix, and gives the
    /// placeholder with its element type; anything else is an error, reported for
    /// the path `written`.
    pub open spec fn read(type_path: TypePathView, written: TypePathView) -> Result<
        Option<(Special, Option<TypeView>)>,
        ErrorView,
    > {
        match Special::resembled(type_path) {
            None => Ok(None),
            Some(special) => {
                if type_path.qself is Some || type_path.segments.len() != 1 {
                    Err(ErrorView { kind: ErrorKind::ShapeError, special, type_path: written })
                } else {
                    match Special::sub_type(type_path.segments[0].arguments) {
                        Ok(sub_type) => Ok(Some((special, sub_type))),
                        Err(kind) => Err(ErrorView { kind, special, type_path: written }),
                    }
                }
            },
        }
    }

    /// The name that the placeholder is written with.
    pub fn as_str(&self) -> (name: &'static str)
        ensures
            name@ == self.name(),
    {
        match self {
            Special::AnyArray => "AnyArray",
            Special::AnyString => "AnyString",
            Special::AnyPath => "AnyPath",
            Special::AnyIter => "AnyIter",
            Special::AnyNdArray => "AnyNdArray",
        }
    }

    /// The name that the placeholder is written with, as an owned string.
    pub fn to_string(&self) -> (name: String)
        ensures
            name@ == self.name(),
    {
        String::from_str(self.as_str())
    }

    /// The placeholder that is written with `name`; `None` for any other name.
    pub fn from_str(name: &str) -> (special: Option<Special>)
        ensures
            special == Special::named(name@),
    {
        let name = String::from_str(name);
        if name == String::from_str("AnyArray") {
            Some(Special::AnyArray)
        } else if name == String::from_str("AnyString") {
            Some(Special::AnyString)
        } else if name == String::from_str("AnyPath") {
            Some(Special::AnyPath)
        } else if name == String::from_str("AnyIter") {
            Some(Special::AnyIter)
        } else if name == String::from_str("AnyNdArray") {
            Some(Special::AnyNdArray)
        } else {
            None
        }
    }

    /// Whether the placeholder takes an element type.
    pub fn arity(&self) -> (arity: Arity)
        ensures
            arity == self.spec_arity(),
    {
        match self {
            Special::AnyString | Special::AnyPath => Arity::Zero,
            Special::AnyArray | Special::AnyIter | Special::AnyNdArray => Arity::ExactlyOne,
        }
    }

    /// Whether the bound of the placeholder needs a lifetime of its own. Only
    /// `AnyNdArray` does.
    pub fn should_add_lifetime(&self) -> (needed: bool)
        ensures
            needed == self.needs_lifetime(),
    {
        match self {
            Special::AnyArray | Special::AnyString | Special::AnyPath | Special::AnyIter => false,
            Special::AnyNdArray => true,
        }
    }

    /// The predicate that binds the type parameter `generic` to what the placeholder
    /// stands for.
    ///
    /// It is an `ArityError` if the placeholder takes no element type and
    /// `maybe_sub_type` holds one, or takes one and `maybe_sub_type` is `None`. The
    /// error is reported for the path `written`.
    pub fn special_to_where_predicate(
        &self,
        generic: &str,
        maybe_sub_type: Option<Type>,
        maybe_lifetime: Option<String>,
        written: &TypePath,
    ) -> (result: Result<WherePredicate, Error>)
        requires
            maybe_lifetime is Some <==> self.needs_lifetime(),
        ensures
            result is Ok <==> self.arity_met(maybe_sub_type),
            match result {
                Ok(where_predicate) => Ok(where_predicate@),
                Err(error) => Err(error@),
            } == self.where_predicate(
                generic@,
                option_view(maybe_sub_type),
                option_view(maybe_lifetime),
                written@,
            ),
    {
        let bound = match self {
            Special::AnyString => match maybe_sub_type {
                None => Some(Bound::AsRefStr),
                Some(_) => None,
            },
            Special::AnyPath => match maybe_sub_type {
                None => Some(Bound::AsRefPath),
                Some(_) => None,
            },
            Special::AnyArray => match maybe_sub_type {
                Some(sub_type) => Some(Bound::AsRefSlice(sub_type)),
                None => None,
            },
            Special::AnyIter => match maybe_sub_type {
                Some(sub_type) => Some(Bound::IntoIterator(sub_type)),
                None => None,
            },
            Special::AnyNdArray => match (maybe_sub_type, maybe_lifetime) {
                (Some(sub_type), Some(lifetime)) => Some(Bound::IntoArrayView1(lifetime, sub_type)),
                _ => None,
            },
        };
        match bound {
            Some(bound) => Ok(WherePredicate::Bounded { ty: String::from_str(generic), bound }),
            None => Err(
                Error { kind: ErrorKind::ArityError, special: *self, type_path: written.clone() },
            ),
        }
    }

    /// The statement that gives the parameter `name` its concrete form:
    /// `let name = name.as_ref();` for `AnyString`, `AnyPath` and `AnyArray`,
    /// `let name = name.into_iter();` for `AnyIter`, and `let name = name.into();`
    /// for `AnyNdArray`.
    pub fn ident_to_stmt(&self, name: &str) -> (stmt: Stmt)
        ensures
            stmt@ == self.stmt(name@),
    {
        let conversion = match self {
            Special::AnyArray | Special::AnyString | Special::AnyPath => Conversion::AsRef,
            Special::AnyIter => Conversion::IntoIter,
            Special::AnyNdArray => Conversion::Into,
        };
        Stmt::Rebind { ident: String::from_str(name), conversion }
    }

    /// Reads a path as a placeholder.
    ///
    /// `Ok(None)` for a path that is not named after a placeholder. A path that is
    /// named after one must be a single segment without a qualified-self prefix
    /// (else `ShapeError`), and its arguments must be none or exactly one type
    /// between angle brackets.
    pub fn maybe_new(type_path: &TypePath, written: &TypePath) -> (result: Result<
        Option<(Special, Option<Type>)>,
        Error,
    >)
        ensures
            match result {
                Ok(Some((special, maybe_sub_type))) => Ok(
                    Some((special, option_view(maybe_sub_type))),
                ),
                Ok(None) => Ok(None),
                Err(error) => Err(error@),
            } == Special::read(type_path@, written@),
    {
        let count = type_path.segments.len();
        if count == 0 {
            return Ok(None);
        }
        let segment = &type_path.segments[count - 1];
        match Special::from_str(segment.ident.as_str()) {
            None => Ok(None),
            Some(special) => {
                if type_path.qself.is_some() || first_and_only(&type_path.segments).is_none() {
                    Err(
                        Error {
                            kind: ErrorKind::ShapeError,
                            special,
                            type_path: written.clone(),
                        },
                    )
                } else {
                    match Special::create_maybe_sub_type(&segment.arguments) {
                        Ok(maybe_sub_type) => Ok(Some((special, maybe_sub_type))),
                        Err(kind) => Err(Error { kind, special, type_path: written.clone() }),
                    }
                }
            },
        }
    }

    /// The element type that the arguments of a placeholder hold.
    ///
    /// Without arguments there is none. Between angle brackets there must be
    /// exactly one argument (else `ArityError`), and it must be a type (else
    /// `TypeKindError`). Arguments in parentheses are a `ShapeError`.
    pub fn create_maybe_sub_type(args: &PathArguments) -> (result: Result<Option<Type>, ErrorKind>)
        ensures
            match result {
                Ok(maybe_sub_type) => Ok(option_view(maybe_sub_type)),
                Err(kind) => Err(kind),
            } == Special::sub_type(args@),
    {
        match args {
            PathArguments::Empty => Ok(None),
            PathArguments::AngleBracketed(args) => {
                match first_and_only(args) {
                    None => Err(ErrorKind::ArityError),
                    Some(arg) => match arg {
                        Piece::Type(sub_type) => Ok(Some(sub_type.clone())),
                        _ => Err(ErrorKind::TypeKindError),
                    },
                }
            },
            PathArguments::Parenthesized(_) => Err(ErrorKind::ShapeError),
        }
    }

    /// The name in snake case: `AnyNdArray` gives `any_nd_array`.
    pub fn to_snake_case(&self) -> (snake: String)
        ensures
            snake@ == snake_case(self.name()),
            snake@ == self.snake_name(),
    {
        let name = self.as_str();
        let mut snake = String::new();
        let len = name.unicode_len();
        let mut index: usize = 0;
        while index < len
            invariant
                index <= len,
                len == name@.len(),
                snake@ == snake_case(name@.take(index as int)),
            decreases len - index,
        {
            let ch = name.get_char(index);
            proof {
                let upto = name@.take(index + 1);
                assert(upto.drop_last() =~= name@.take(index as int));
                assert(upto.last() == ch);
            }
            if index > 0 && 'A' <= ch && ch <= 'Z' {
                snake.push('_');
            }
            snake.push(to_ascii_lowercase(ch));
            index += 1;
        }
        proof {
            assert(name@.take(len as int) =~= name@);
            lemma_snake_names(*self);
        }
        snake
    }
}

/// The only item of `items`, or `None` where there is none or more than one.
pub fn first_and_only<T>(items: &Vec<T>) -> (only: Option<&T>)
    ensures
        only is Some <==> items@.len() == 1,
        only matches Some(item) ==> *item == items@[0],
{
    if items.len() == 1 {
        Some(&items[0])
    } else {
        None
    }
}

/// The lower-case letter for an upper-case letter of the ASCII alphabet; any other
/// character is returned as it is.
fn to_ascii_lowercase(c: char) -> (lower: char)
    ensures
        lower == ascii_lower(c),
{
    if 'A' <= c && c <= 'Z' {
        ((c as u8) + 32) as char
    } else {
        c
    }
}

/// The five names, character by character.
pub proof fn lemma_names_revealed()
    ensures
        "AnyArray"@ == seq!['A', 'n', 'y', 'A', 'r', 'r', 'a', 'y'],
        "AnyString"@ == seq!['A', 'n', 'y', 'S', 't', 'r', 'i', 'n', 'g'],
        "AnyPath"@ == seq!['A', 'n', 'y', 'P', 'a', 't', 'h'],
        "AnyIter"@ == seq!['A', 'n', 'y', 'I', 't', 'e', 'r'],
        "AnyNdArray"@ == seq!['A', 'n', 'y', 'N', 'd', 'A', 'r', 'r', 'a', 'y'],
{
    reveal_strlit("AnyArray");
    reveal_strlit("AnyString");
    reveal_strlit("AnyPath");
    reveal_strlit("AnyIter");
    reveal_strlit("AnyNdArray");
    assert("AnyArray"@ =~= seq!['A', 'n', 'y', 'A', 'r', 'r', 'a', 'y']);
    assert("AnyString"@ =~= seq!['A', 'n', 'y', 'S', 't', 'r', 'i', 'n', 'g']);
    assert("AnyPath"@ =~= seq!['A', 'n', 'y', 'P', 'a', 't', 'h']);
    assert("AnyIter"@ =~= seq!['A', 'n', 'y', 'I', 't', 'e', 'r']);
    assert("AnyNdArray"@ =~= seq!['A', 'n', 'y', 'N', 'd', 'A', 'r', 'r', 'a', 'y']);
}

/// Every placeholder is found again by its name.
pub proof fn lemma_named_name(special: Special)
    ensures
        Special::named(special.name()) == Some(special),
{
    lemma_names_revealed();
    assert("AnyArray"@[3] == 'A');
    assert("AnyString"@[3] == 'S');
    assert("AnyPath"@[3] == 'P');
    assert("AnyIter"@[3] == 'I');
    assert("AnyNdArray"@[3] == 'N');
}

/// A name that a placeholder is found by is the name of that placeholder.
pub proof fn lemma_name_named(name: Seq<char>)
    ensures
        Special::named(name) matches Some(special) ==> special.name() == name,
{
}

/// The snake-case names, worked out from the names.
pub proof fn lemma_snake_names(special: Special)
    ensures
        snake_case(special.name()) == special.snake_name(),
{
    match special {
        Special::AnyArray => lemma_snake_any_array(),
        Special::AnyString => lemma_snake_any_string(),
        Special::AnyPath => lemma_snake_any_path(),
        Special::AnyIter => lemma_snake_any_iter(),
        Special::AnyNdArray => lemma_snake_any_nd_array(),
    }
}

/// What one more character adds to a name in snake case.
spec fn snake_step(head: Seq<char>, k: int, c: char) -> Seq<char> {
    if k > 1 && is_ascii_upper(c) {
        head.push('_').push(ascii_lower(c))
    } else {
        head.push(ascii_lower(c))
    }
}

/// Snake case of the first `k` characters in terms of the first `k - 1`.
proof fn lemma_snake_case_step(text: Seq<char>, k: int)
    requires
        1 <= k <= text.len(),
    ensures
        snake_case(text.take(k)) == snake_step(snake_case(text.take(k - 1)), k, text[k - 1]),
{
    assert(text.take(k).drop_last() =~= text.take(k - 1));
    assert(text.take(k).last() == text[k - 1]);
}

proof fn lemma_snake_any_array()
    ensures
        snake_case("AnyArray"@) == "any_array"@,
{
    lemma_names_revealed();
    reveal_strlit("any_array");
    let name = "AnyArray"@;
    assert(snake_case(name.take(0)) =~= Seq::<char>::empty());
    lemma_snake_case_step(name, 1);
    lemma_snake_case_step(name, 2);
    lemma_snake_case_step(name, 3);
    lemma_snake_case_step(name, 4);
    lemma_snake_case_step(name, 5);
    lemma_snake_case_step(name, 6);
    lemma_snake_case_step(name, 7);
    lemma_snake_case_step(name, 8);
    assert(name.take(8) =~= name);
    assert(snake_case(name) =~= "any_array"@);
}

proof fn lemma_snake_any_string()
    ensures
        snake_case("AnyString"@) == "any_string"@,
{
    lemma_names_revealed();
    reveal_strlit("any_string");
    let name = "AnyString"@;
    assert(snake_case(name.take(0)) =~= Seq::<char>::empty());
    lemma_snake_case_step(name, 1);
    lemma_snake_case_step(name, 2);
    lemma_snake_case_step(name, 3);
    lemma_snake_case_step(name, 4);
    lemma_snake_case_step(name, 5);
    lemma_snake_case_step(name, 6);
    lemma_snake_case_step(name, 7);
    lemma_snake_case_step(name, 8);
    lemma_snake_case_step(name, 9);
    assert(name.take(9) =~= name);
    assert(snake_case(name) =~= "any_string"@);
}

proof fn lemma_snake_any_path()
    ensures
        snake_case("AnyPath"@) == "any_path"@,
{
    lemma_names_revealed();
    reveal_strlit("any_path");
    let name = "AnyPath"@;
    assert(snake_case(name.take(0)) =~= Seq::<char>::empty());
    lemma_snake_case_step(name, 1);
    lemma_snake_case_step(name, 2);
    lemma_snake_case_step(name, 3);
    lemma_snake_case_step(name, 4);
    lemma_snake_case_step(name, 5);
    lemma_snake_case_step(name, 6);
    lemma_snake_case_step(name, 7);
    assert(name.take(7) =~= name);
    assert(snake_case(name) =~= "any_path"@);
}

proof fn lemma_snake_any_iter()
    ensures
        snake_case("AnyIter"@) == "any_iter"@,
{
    lemma_names_revealed();
    reveal_strlit("any_iter");
    let name = "AnyIter"@;
    assert(snake_case(name.take(0)) =~= Seq::<char>::empty());
    lemma_snake_case_step(name, 1);
    lemma_snake_case_step(name, 2);
    lemma_snake_case_step(name, 3);
    lemma_snake_case_step(name, 4);
    lemma_snake_case_step(name, 5);
    lemma_snake_case_step(name, 6);
    lemma_snake_case_step(name, 7);
    assert(name.take(7) =~= name);
    assert(snake_case(name) =~= "any_iter"@);
}

proof fn lemma_snake_any_nd_array()
    ensures
        snake_case("AnyNdArray"@) == "any_nd_array"@,
{
    lemma_names_revealed();
    reveal_strlit("any_nd_array");
    let name = "AnyNdArray"@;
    assert(snake_case(name.take(0)) =~= Seq::<char>::empty());
    lemma_snake_case_step(name, 1);
    lemma_snake_case_step(name, 2);
    lemma_snake_case_step(name, 3);
    lemma_snake_case_step(name, 4);
    lemma_snake_case_step(name, 5);
    lemma_snake_case_step(name, 6);
    lemma_snake_case_step(name, 7);
    lemma_snake_case_step(name, 8);
    lemma_snake_case_step(name, 9);
    lemma_snake_case_step(name, 10);
    assert(name.take(10) =~= name);
    assert(snake_case(name) =~= "any_nd_array"@);
}

} // verus!
