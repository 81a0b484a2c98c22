use anyinput::{
    anyinput_core, Error, ErrorKind, FnArg, ItemFn, PathArguments, PathSegment, Piece, Special,
    Stmt, Type, TypePath,
};

fn segment(ident: &str, arguments: PathArguments) -> PathSegment {
    PathSegment {
        ident: ident.to_string(),
        arguments,
    }
}

fn path(segments: Vec<PathSegment>) -> TypePath {
    TypePath {
        qself: None,
        leading_colon: false,
        segments,
    }
}

/// `fn f(x: <type_path>) { }`
fn f(type_path: &TypePath) -> ItemFn {
    ItemFn::new(
        "",
        "f",
        vec![FnArg::typed("x", Type::Path(type_path.clone()))],
        None,
        vec![Stmt::verbatim("drop(x);")],
    )
}

fn refused(type_path: &TypePath, kind: ErrorKind, special: Special) {
    assert_eq!(
        anyinput_core(f(type_path)),
        Err(Error {
            kind,
            special,
            type_path: type_path.clone(),
        })
    );
}

#[test]
fn a_placeholder_that_takes_no_type_refuses_one() {
    for (name, special) in [
        ("AnyString", Special::AnyString),
        ("AnyPath", Special::AnyPath),
    ] {
        let written = path(vec![segment(
            name,
            PathArguments::AngleBracketed(vec![Piece::Type(Type::path("u8"))]),
        )]);
        refused(&written, ErrorKind::ArityError, special);
    }
}

#[test]
fn a_placeholder_that_takes_a_type_refuses_none() {
    for (name, special) in [
        ("AnyArray", Special::AnyArray),
        ("AnyIter", Special::AnyIter),
        ("AnyNdArray", Special::AnyNdArray),
    ] {
        let written = path(vec![segment(name, PathArguments::Empty)]);
        refused(&written, ErrorKind::ArityError, special);
    }
}

#[test]
fn angle_brackets_must_hold_exactly_one_argument() {
    let none = path(vec![segment(
        "AnyString",
        PathArguments::AngleBracketed(vec![]),
    )]);
    refused(&none, ErrorKind::ArityError, Special::AnyString);

    let two = path(vec![segment(
        "AnyArray",
        PathArguments::AngleBracketed(vec![
            Piece::Type(Type::path("u8")),
            Piece::Type(Type::path("u8")),
        ]),
    )]);
    refused(&two, ErrorKind::ArityError, Special::AnyArray);
}

#[test]
fn the_argument_must_be_a_type() {
    let lifetime = path(vec![segment(
        "AnyArray",
        PathArguments::AngleBracketed(vec![Piece::Text("'static".to_string())]),
    )]);
    refused(&lifetime, ErrorKind::TypeKindError, Special::AnyArray);

    let binding = path(vec![segment(
        "AnyIter",
        PathArguments::AngleBracketed(vec![Piece::Group(vec![
            Piece::Text("Item = ".to_string()),
            Piece::Type(Type::path("u8")),
        ])]),
    )]);
    refused(&binding, ErrorKind::TypeKindError, Special::AnyIter);

    // The kind of the argument is looked at before the placeholder is asked
    // whether it takes one.
    let constant = path(vec![segment(
        "AnyString",
        PathArguments::AngleBracketed(vec![Piece::Text("3".to_string())]),
    )]);
    refused(&constant, ErrorKind::TypeKindError, Special::AnyString);
}

#[test]
fn a_longer_path_that_ends_in_a_placeholder_is_a_shape_error() {
    let two_segments = path(vec![
        segment("my_crate", PathArguments::Empty),
        segment("AnyString", PathArguments::Empty),
    ]);
    refused(&two_segments, ErrorKind::ShapeError, Special::AnyString);

    let qualified = TypePath {
        qself: Some(vec![
            Piece::Text("<".to_string()),
            Piece::Type(Type::path("T")),
            Piece::Text(" as Trait>".to_string()),
        ]),
        leading_colon: false,
        segments: vec![segment("AnyPath", PathArguments::Empty)],
    };
    refused(&qualified, ErrorKind::ShapeError, Special::AnyPath);
}

#[test]
fn arguments_in_parentheses_are_a_shape_error() {
    let written = path(vec![segment(
        "AnyIter",
        PathArguments::Parenthesized(vec![
            Piece::Text("(".to_string()),
            Piece::Type(Type::path("u8")),
            Piece::Text(")".to_string()),
        ]),
    )]);
    refused(&written, ErrorKind::ShapeError, Special::AnyIter);
}

#[test]
fn a_path_that_only_starts_with_a_placeholder_is_left_alone() {
    let written = path(vec![
        segment("AnyString", PathArguments::Empty),
        segment("Owned", PathArguments::Empty),
    ]);
    let before = f(&written);
    assert_eq!(anyinput_core(before.clone()), Ok(before));
}

#[test]
fn names_are_matched_exactly() {
    for name in ["anystring", "AnyString0", "AnyStrin", "Anypath", "AnyIterator", ""] {
        let before = f(&path(vec![segment(name, PathArguments::Empty)]));
        assert_eq!(anyinput_core(before.clone()), Ok(before));
    }
}

#[test]
fn a_leading_colon_does_not_hide_a_placeholder() {
    let written = TypePath {
        qself: None,
        leading_colon: true,
        segments: vec![segment("AnyString", PathArguments::Empty)],
    };
    let after = anyinput_core(f(&written)).unwrap();
    assert_eq!(
        after.sig.inputs,
        vec![FnArg::typed("x", Type::path("AnyString0"))]
    );
}

#[test]
fn the_first_mistake_that_is_reached_is_reported() {
    // AnyIter<AnyString<u8>, u8>: the inner path is reached first.
    let inner = path(vec![segment(
        "AnyString",
        PathArguments::AngleBracketed(vec![Piece::Type(Type::path("u8"))]),
    )]);
    let outer = path(vec![segment(
        "AnyIter",
        PathArguments::AngleBracketed(vec![
            Piece::Type(Type::Path(inner.clone())),
            Piece::Type(Type::path("u8")),
        ]),
    )]);
    assert_eq!(
        anyinput_core(f(&outer)),
        Err(Error {
            kind: ErrorKind::ArityError,
            special: Special::AnyString,
            type_path: inner,
        })
    );

    // Of two parameters, the first one.
    let first = path(vec![segment("AnyIter", PathArguments::Empty)]);
    let second = path(vec![segment(
        "AnyPath",
        PathArguments::Parenthesized(vec![Piece::Text("()".to_string())]),
    )]);
    let before = ItemFn::new(
        "",
        "f",
        vec![
            FnArg::typed("a", Type::path("AnyString")),
            FnArg::typed("b", Type::Path(first.clone())),
            FnArg::typed("c", Type::Path(second)),
        ],
        None,
        vec![],
    );
    assert_eq!(
        anyinput_core(before),
        Err(Error {
            kind: ErrorKind::ArityError,
            special: Special::AnyIter,
            type_path: first,
        })
    );
}

#[test]
fn the_reported_path_is_the_one_that_was_written() {
    // AnyArray<AnyString, AnyPath>: by the time the mistake is found the
    // arguments have been replaced; the error still shows them as written.
    let written = path(vec![segment(
        "AnyArray",
        PathArguments::AngleBracketed(vec![
            Piece::Type(Type::path("AnyString")),
            Piece::Type(Type::path("AnyPath")),
        ]),
    )]);
    refused(&written, ErrorKind::ArityError, Special::AnyArray);
}
