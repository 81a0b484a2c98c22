use anyinput::{
    anyinput_core, Bound, Conversion, Error, ErrorKind, FnArg, GenericParam, Generics, ItemFn,
    PathArguments, PathSegment, Piece, Special, Stmt, Type, TypePath, WhereClause, WherePredicate,
};

fn stmts(texts: &[&str]) -> Vec<Stmt> {
    texts.iter().map(|text| Stmt::verbatim(text)).collect()
}

/// `fn f(<inputs>) -> usize { <body> }`
fn f(inputs: Vec<FnArg>, body: &[&str]) -> ItemFn {
    ItemFn::new("", "f", inputs, Some("usize"), stmts(body))
}

fn bounded(ty: &str, bound: Bound) -> WherePredicate {
    WherePredicate::Bounded {
        ty: ty.to_string(),
        bound,
    }
}

fn rebind(ident: &str, conversion: Conversion) -> Stmt {
    Stmt::Rebind {
        ident: ident.to_string(),
        conversion,
    }
}

fn type_params(names: &[&str]) -> Vec<GenericParam> {
    names
        .iter()
        .map(|name| GenericParam::Type(name.to_string()))
        .collect()
}

#[test]
fn a_text_parameter_gets_one_type_parameter_and_one_statement() {
    let before = f(vec![FnArg::typed("s", Type::path("AnyString"))], &["s.len()"]);
    let after = anyinput_core(before).unwrap();

    assert_eq!(after.sig.generics.params, type_params(&["AnyString0"]));
    assert_eq!(
        after.sig.generics.where_clause,
        Some(WhereClause {
            predicates: vec![bounded("AnyString0", Bound::AsRefStr)],
        })
    );
    assert_eq!(
        after.sig.inputs,
        vec![FnArg::typed("s", Type::path("AnyString0"))]
    );
    assert_eq!(
        after.block.stmts,
        vec![rebind("s", Conversion::AsRef), Stmt::verbatim("s.len()")]
    );
    assert_eq!(
        after.to_text(),
        "fn f<AnyString0>(s: AnyString0) -> usize where AnyString0: AsRef<str> \
         { let s = s.as_ref(); s.len() }"
    );
}

#[test]
fn two_text_parameters_get_their_statements_in_reverse_order() {
    let before = f(
        vec![
            FnArg::typed("a", Type::path("AnyString")),
            FnArg::typed("b", Type::path("AnyString")),
        ],
        &["a.len() + b.len()"],
    );
    let after = anyinput_core(before).unwrap();

    assert_eq!(
        after.sig.generics.params,
        type_params(&["AnyString0", "AnyString1"])
    );
    assert_eq!(
        after.sig.generics.where_clause,
        Some(WhereClause {
            predicates: vec![
                bounded("AnyString0", Bound::AsRefStr),
                bounded("AnyString1", Bound::AsRefStr),
            ],
        })
    );
    assert_eq!(
        after.sig.inputs,
        vec![
            FnArg::typed("a", Type::path("AnyString0")),
            FnArg::typed("b", Type::path("AnyString1")),
        ]
    );
    assert_eq!(
        after.block.stmts,
        vec![
            rebind("b", Conversion::AsRef),
            rebind("a", Conversion::AsRef),
            Stmt::verbatim("a.len() + b.len()"),
        ]
    );
}

#[test]
fn a_path_inside_an_iterator_is_named_first_and_gets_no_statement() {
    let before = f(
        vec![FnArg::typed(
            "i",
            Type::generic("AnyIter", vec![Type::path("AnyPath")]),
        )],
        &["i.count()"],
    );
    let after = anyinput_core(before).unwrap();

    assert_eq!(
        after.sig.generics.params,
        type_params(&["AnyPath0", "AnyIter1"])
    );
    assert_eq!(
        after.sig.generics.where_clause,
        Some(WhereClause {
            predicates: vec![
                bounded("AnyPath0", Bound::AsRefPath),
                bounded("AnyIter1", Bound::IntoIterator(Type::path("AnyPath0"))),
            ],
        })
    );
    assert_eq!(
        after.sig.inputs,
        vec![FnArg::typed("i", Type::path("AnyIter1"))]
    );
    assert_eq!(
        after.block.stmts,
        vec![rebind("i", Conversion::IntoIter), Stmt::verbatim("i.count()")]
    );
}

#[test]
fn a_text_parameter_with_an_element_type_is_an_arity_error() {
    let written = TypePath {
        qself: None,
        leading_colon: false,
        segments: vec![PathSegment {
            ident: "AnyString".to_string(),
            arguments: PathArguments::AngleBracketed(vec![Piece::Type(Type::path("usize"))]),
        }],
    };
    let before = f(
        vec![FnArg::typed("s", Type::Path(written.clone()))],
        &["s.len()"],
    );
    assert_eq!(
        anyinput_core(before),
        Err(Error {
            kind: ErrorKind::ArityError,
            special: Special::AnyString,
            type_path: written,
        })
    );
}

#[test]
fn a_function_without_placeholders_stays_as_it_is() {
    let mut before = ItemFn::new(
        "pub(crate)",
        "total",
        vec![
            FnArg::Receiver("&self".to_string()),
            FnArg::typed("values", Type::generic("Vec", vec![Type::path("usize")])),
            FnArg::typed("name", Type::verbatim("&str")),
        ],
        Some("usize"),
        stmts(&["let sum = values.iter().sum();", "sum + name.len()"]),
    );
    before.attrs = vec!["#[inline]".to_string()];
    before.sig.qualifiers = "const".to_string();
    before.sig.generics = Generics {
        params: vec![GenericParam::Verbatim("T: Copy".to_string())],
        where_clause: Some(WhereClause {
            predicates: vec![WherePredicate::Verbatim("T: Default".to_string())],
        }),
    };

    let after = anyinput_core(before.clone()).unwrap();
    assert_eq!(after, before);

    // Without generic parameters too.
    let bare = f(vec![FnArg::typed("n", Type::path("usize"))], &["n"]);
    assert_eq!(anyinput_core(bare.clone()), Ok(bare));
}

#[test]
fn a_where_clause_without_predicates_is_dropped() {
    let mut before = f(vec![FnArg::typed("n", Type::path("usize"))], &["n"]);
    before.sig.generics.where_clause = Some(WhereClause { predicates: vec![] });

    let after = anyinput_core(before.clone()).unwrap();
    assert_eq!(after.sig.generics.where_clause, None);
    assert_eq!(after.sig.inputs, before.sig.inputs);
    assert_eq!(after.sig.generics.params, before.sig.generics.params);
    assert_eq!(after.block, before.block);
}

#[test]
fn what_was_rewritten_is_left_as_it_is_by_a_second_rewriting() {
    let before = f(
        vec![
            FnArg::typed("a", Type::path("AnyString")),
            FnArg::typed(
                "b",
                Type::generic(
                    "AnyIter",
                    vec![Type::generic("AnyNdArray", vec![Type::path("AnyPath")])],
                ),
            ),
        ],
        &["a.len() + b.count()"],
    );
    let once = anyinput_core(before).unwrap();
    let twice = anyinput_core(once.clone()).unwrap();
    assert_eq!(twice, once);
}

#[test]
fn a_placeholder_alone_adds_exactly_one_type_parameter_without_a_lifetime() {
    for (name, fresh, bound) in [
        ("AnyString", "AnyString0", Bound::AsRefStr),
        ("AnyPath", "AnyPath0", Bound::AsRefPath),
    ] {
        let before = f(vec![FnArg::typed("x", Type::path(name))], &["0"]);
        let after = anyinput_core(before).unwrap();
        assert_eq!(after.sig.generics.params, type_params(&[fresh]));
        assert_eq!(
            after.sig.generics.where_clause,
            Some(WhereClause {
                predicates: vec![bounded(fresh, bound)],
            })
        );
    }
}

#[test]
fn the_innermost_placeholder_has_the_smallest_suffix() {
    // AnyIter<AnyArray<AnyIter<AnyString>>>
    let ty = Type::generic(
        "AnyIter",
        vec![Type::generic(
            "AnyArray",
            vec![Type::generic("AnyIter", vec![Type::path("AnyString")])],
        )],
    );
    let after = anyinput_core(f(vec![FnArg::typed("x", ty)], &["0"])).unwrap();
    assert_eq!(
        after.sig.generics.params,
        type_params(&["AnyString0", "AnyIter1", "AnyArray2", "AnyIter3"])
    );
    assert_eq!(
        after.sig.generics.where_clause,
        Some(WhereClause {
            predicates: vec![
                bounded("AnyString0", Bound::AsRefStr),
                bounded("AnyIter1", Bound::IntoIterator(Type::path("AnyString0"))),
                bounded("AnyArray2", Bound::AsRefSlice(Type::path("AnyIter1"))),
                bounded("AnyIter3", Bound::IntoIterator(Type::path("AnyArray2"))),
            ],
        })
    );
    assert_eq!(
        after.sig.inputs,
        vec![FnArg::typed("x", Type::path("AnyIter3"))]
    );
}

#[test]
fn placeholders_side_by_side_are_named_from_left_to_right() {
    // HashMap<AnyString, AnyPath>
    let ty = Type::generic(
        "HashMap",
        vec![Type::path("AnyString"), Type::path("AnyPath")],
    );
    let after = anyinput_core(f(vec![FnArg::typed("x", ty)], &["0"])).unwrap();
    assert_eq!(
        after.sig.generics.params,
        type_params(&["AnyString0", "AnyPath1"])
    );
    assert_eq!(
        after.sig.inputs,
        vec![FnArg::typed(
            "x",
            Type::generic(
                "HashMap",
                vec![Type::path("AnyString0"), Type::path("AnyPath1")]
            )
        )]
    );
    // No statement: the type of the parameter is no placeholder itself.
    assert_eq!(after.block.stmts, stmts(&["0"]));
}

#[test]
fn an_array_view_draws_its_lifetime_after_its_type_parameter() {
    let before = f(
        vec![
            FnArg::typed("a", Type::generic("AnyNdArray", vec![Type::path("f32")])),
            FnArg::typed("s", Type::path("AnyString")),
        ],
        &["0"],
    );
    let after = anyinput_core(before).unwrap();
    assert_eq!(
        after.sig.generics.params,
        vec![
            GenericParam::Lifetime("any_nd_array1".to_string()),
            GenericParam::Type("AnyNdArray0".to_string()),
            GenericParam::Type("AnyString2".to_string()),
        ]
    );
    assert_eq!(
        after.sig.generics.where_clause,
        Some(WhereClause {
            predicates: vec![
                bounded(
                    "AnyNdArray0",
                    Bound::IntoArrayView1("any_nd_array1".to_string(), Type::path("f32"))
                ),
                bounded("AnyString2", Bound::AsRefStr),
            ],
        })
    );
    assert_eq!(
        after.block.stmts,
        vec![
            rebind("s", Conversion::AsRef),
            rebind("a", Conversion::Into),
            Stmt::verbatim("0"),
        ]
    );
}

#[test]
fn only_a_parameter_written_as_identifier_and_path_is_rewritten() {
    // A reference to a placeholder is no path, so the parameter stays as it is.
    let reference = Type::Other(vec![
        Piece::Text("&".to_string()),
        Piece::Type(Type::path("AnyString")),
    ]);
    // A pattern that is no identifier.
    let pair = FnArg::Typed(anyinput::PatType {
        attrs: vec![],
        pat: anyinput::Pat::Other("(a, b)".to_string()),
        ty: Type::generic("Pair", vec![Type::path("AnyString")]),
    });
    let before = f(
        vec![
            FnArg::Receiver("self".to_string()),
            FnArg::typed("r", reference),
            pair,
        ],
        &["0"],
    );
    assert_eq!(anyinput_core(before.clone()), Ok(before));
}

#[test]
fn a_placeholder_behind_a_reference_inside_a_path_is_replaced() {
    // Vec<&AnyString>
    let ty = Type::generic(
        "Vec",
        vec![Type::Other(vec![
            Piece::Text("&".to_string()),
            Piece::Type(Type::path("AnyString")),
        ])],
    );
    let after = anyinput_core(f(vec![FnArg::typed("v", ty)], &["0"])).unwrap();
    assert_eq!(
        after.to_text(),
        "fn f<AnyString0>(v: Vec<&AnyString0>) -> usize where AnyString0: AsRef<str> { 0 }"
    );
}

#[test]
fn a_mutable_binding_keeps_its_pattern() {
    let pat_type = anyinput::PatType {
        attrs: vec!["#[allow(unused)]".to_string()],
        pat: anyinput::Pat::Ident(anyinput::PatIdent {
            by_ref: false,
            mutability: true,
            ident: "s".to_string(),
            subpat: None,
        }),
        ty: Type::path("AnyPath"),
    };
    let after = anyinput_core(f(vec![FnArg::Typed(pat_type)], &["0"])).unwrap();
    assert_eq!(
        after.to_text(),
        "fn f<AnyPath0>(#[allow(unused)] mut s: AnyPath0) -> usize \
         where AnyPath0: AsRef<std::path::Path> { let s = s.as_ref(); 0 }"
    );
}

#[test]
fn no_two_placeholders_get_the_same_type_parameter() {
    // Twelve parameters, each `AnyIter<AnyArray<AnyNdArray<AnyPath>>>`.
    let nested = || {
        Type::generic(
            "AnyIter",
            vec![Type::generic(
                "AnyArray",
                vec![Type::generic("AnyNdArray", vec![Type::path("AnyPath")])],
            )],
        )
    };
    let inputs = (0..12)
        .map(|number| FnArg::typed(&format!("p{number}"), nested()))
        .collect();
    let after = anyinput_core(f(inputs, &["0"])).unwrap();

    let names: Vec<String> = after
        .sig
        .generics
        .params
        .iter()
        .map(|param| param.to_text())
        .collect();
    // Per parameter: three type parameters, one more with its lifetime.
    assert_eq!(names.len(), 12 * 5);
    let mut sorted = names.clone();
    sorted.sort();
    sorted.dedup();
    assert_eq!(sorted.len(), names.len());

    // The last parameter draws the suffixes 55 to 59.
    assert_eq!(
        names[55..],
        [
            "AnyPath55",
            "'any_nd_array57",
            "AnyNdArray56",
            "AnyArray58",
            "AnyIter59"
        ]
    );
    assert_eq!(after.block.stmts.len(), 13);
    assert_eq!(after.block.stmts[0].to_text(), "let p11 = p11.into_iter();");
    assert_eq!(after.block.stmts[11].to_text(), "let p0 = p0.into_iter();");
}
