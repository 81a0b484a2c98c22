use anyinput::{
    first_and_only, Arity, Bound, Conversion, Error, ErrorKind, PathArguments, PathSegment, Piece,
    Special, Stmt, Type, TypePath, WherePredicate,
};

const ALL: [Special; 5] = [
    Special::AnyArray,
    Special::AnyString,
    Special::AnyPath,
    Special::AnyIter,
    Special::AnyNdArray,
];

fn single(ident: &str, arguments: PathArguments) -> TypePath {
    TypePath {
        qself: None,
        leading_colon: false,
        segments: vec![PathSegment {
            ident: ident.to_string(),
            arguments,
        }],
    }
}

#[test]
fn every_placeholder_is_found_by_its_name() {
    let names = ["AnyArray", "AnyString", "AnyPath", "AnyIter", "AnyNdArray"];
    for (special, name) in ALL.iter().zip(names) {
        assert_eq!(special.as_str(), name);
        assert_eq!(special.to_string(), name);
        assert_eq!(Special::from_str(name), Some(*special));
    }
    for other in ["", "anyarray", "AnyArray ", "Any", "AnyNdArray2", "String"] {
        assert_eq!(Special::from_str(other), None);
    }
}

#[test]
fn snake_case_names() {
    let snake: Vec<String> = ALL.iter().map(|special| special.to_snake_case()).collect();
    assert_eq!(
        snake,
        vec!["any_array", "any_string", "any_path", "any_iter", "any_nd_array"]
    );
}

#[test]
fn only_text_and_path_take_no_element_type() {
    let arities: Vec<Arity> = ALL.iter().map(|special| special.arity()).collect();
    assert_eq!(
        arities,
        vec![
            Arity::ExactlyOne,
            Arity::Zero,
            Arity::Zero,
            Arity::ExactlyOne,
            Arity::ExactlyOne
        ]
    );
}

#[test]
fn only_the_array_view_needs_a_lifetime() {
    let needed: Vec<bool> = ALL
        .iter()
        .map(|special| special.should_add_lifetime())
        .collect();
    assert_eq!(needed, vec![false, false, false, false, true]);
}

#[test]
fn the_predicate_of_each_placeholder() {
    let written = single("X", PathArguments::Empty);
    let usize_type = || Some(Type::path("usize"));
    let bounded = |bound| {
        Ok(WherePredicate::Bounded {
            ty: "G7".to_string(),
            bound,
        })
    };

    assert_eq!(
        Special::AnyString.special_to_where_predicate("G7", None, None, &written),
        bounded(Bound::AsRefStr)
    );
    assert_eq!(
        Special::AnyPath.special_to_where_predicate("G7", None, None, &written),
        bounded(Bound::AsRefPath)
    );
    assert_eq!(
        Special::AnyArray.special_to_where_predicate("G7", usize_type(), None, &written),
        bounded(Bound::AsRefSlice(Type::path("usize")))
    );
    assert_eq!(
        Special::AnyIter.special_to_where_predicate("G7", usize_type(), None, &written),
        bounded(Bound::IntoIterator(Type::path("usize")))
    );
    assert_eq!(
        Special::AnyNdArray.special_to_where_predicate(
            "G7",
            usize_type(),
            Some("a".to_string()),
            &written
        ),
        bounded(Bound::IntoArrayView1("a".to_string(), Type::path("usize")))
    );
}

#[test]
fn the_predicate_is_refused_for_the_wrong_number_of_element_types() {
    let written = single("Somewhere", PathArguments::Empty);
    let refused = |special: Special| {
        Err(Error {
            kind: ErrorKind::ArityError,
            special,
            type_path: written.clone(),
        })
    };
    let usize_type = || Some(Type::path("usize"));

    assert_eq!(
        Special::AnyString.special_to_where_predicate("G", usize_type(), None, &written),
        refused(Special::AnyString)
    );
    assert_eq!(
        Special::AnyPath.special_to_where_predicate("G", usize_type(), None, &written),
        refused(Special::AnyPath)
    );
    assert_eq!(
        Special::AnyArray.special_to_where_predicate("G", None, None, &written),
        refused(Special::AnyArray)
    );
    assert_eq!(
        Special::AnyIter.special_to_where_predicate("G", None, None, &written),
        refused(Special::AnyIter)
    );
    assert_eq!(
        Special::AnyNdArray.special_to_where_predicate("G", None, Some("a".to_string()), &written),
        refused(Special::AnyNdArray)
    );
}

#[test]
fn the_statement_of_each_placeholder() {
    let conversions: Vec<Stmt> = ALL
        .iter()
        .map(|special| special.ident_to_stmt("x"))
        .collect();
    let rebind = |conversion| Stmt::Rebind {
        ident: "x".to_string(),
        conversion,
    };
    assert_eq!(
        conversions,
        vec![
            rebind(Conversion::AsRef),
            rebind(Conversion::AsRef),
            rebind(Conversion::AsRef),
            rebind(Conversion::IntoIter),
            rebind(Conversion::Into),
        ]
    );
    let texts: Vec<String> = conversions.iter().map(|stmt| stmt.to_text()).collect();
    assert_eq!(
        texts,
        vec![
            "let x = x.as_ref();",
            "let x = x.as_ref();",
            "let x = x.as_ref();",
            "let x = x.into_iter();",
            "let x = x.into();",
        ]
    );
}

#[test]
fn a_path_is_read_as_a_placeholder() {
    let written = single("Written", PathArguments::Empty);

    let plain = single("Vec", PathArguments::AngleBracketed(vec![]));
    assert_eq!(Special::maybe_new(&plain, &written), Ok(None));
    assert_eq!(
        Special::maybe_new(
            &TypePath {
                qself: None,
                leading_colon: false,
                segments: vec![]
            },
            &written
        ),
        Ok(None)
    );

    let text = single("AnyString", PathArguments::Empty);
    assert_eq!(
        Special::maybe_new(&text, &written),
        Ok(Some((Special::AnyString, None)))
    );

    let iter = single(
        "AnyIter",
        PathArguments::AngleBracketed(vec![Piece::Type(Type::path("u8"))]),
    );
    assert_eq!(
        Special::maybe_new(&iter, &written),
        Ok(Some((Special::AnyIter, Some(Type::path("u8")))))
    );

    // Whether the placeholder takes an element type is not looked at here.
    let text_of = single(
        "AnyString",
        PathArguments::AngleBracketed(vec![Piece::Type(Type::path("u8"))]),
    );
    assert_eq!(
        Special::maybe_new(&text_of, &written),
        Ok(Some((Special::AnyString, Some(Type::path("u8")))))
    );

    let two = TypePath {
        qself: None,
        leading_colon: false,
        segments: vec![
            PathSegment {
                ident: "a".to_string(),
                arguments: PathArguments::Empty,
            },
            PathSegment {
                ident: "AnyIter".to_string(),
                arguments: PathArguments::Empty,
            },
        ],
    };
    assert_eq!(
        Special::maybe_new(&two, &written),
        Err(Error {
            kind: ErrorKind::ShapeError,
            special: Special::AnyIter,
            type_path: written.clone(),
        })
    );
}

#[test]
fn the_element_type_between_the_brackets() {
    assert_eq!(
        Special::create_maybe_sub_type(&PathArguments::Empty),
        Ok(None)
    );
    assert_eq!(
        Special::create_maybe_sub_type(&PathArguments::AngleBracketed(vec![Piece::Type(
            Type::verbatim("&str")
        )])),
        Ok(Some(Type::verbatim("&str")))
    );
    assert_eq!(
        Special::create_maybe_sub_type(&PathArguments::AngleBracketed(vec![])),
        Err(ErrorKind::ArityError)
    );
    assert_eq!(
        Special::create_maybe_sub_type(&PathArguments::AngleBracketed(vec![
            Piece::Text("'a".to_string()),
            Piece::Type(Type::path("u8")),
        ])),
        Err(ErrorKind::ArityError)
    );
    assert_eq!(
        Special::create_maybe_sub_type(&PathArguments::AngleBracketed(vec![Piece::Text(
            "'a".to_string()
        )])),
        Err(ErrorKind::TypeKindError)
    );
    assert_eq!(
        Special::create_maybe_sub_type(&PathArguments::Parenthesized(vec![])),
        Err(ErrorKind::ShapeError)
    );
}

#[test]
fn the_only_item_of_a_vector() {
    assert_eq!(first_and_only::<u8>(&vec![]), None);
    assert_eq!(first_and_only(&vec![7]), Some(&7));
    assert_eq!(first_and_only(&vec![7, 8]), None);
    assert_eq!(first_and_only(&vec!["a", "b", "c"]), None);
}
