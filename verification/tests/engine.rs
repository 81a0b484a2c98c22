use anyinput::{
    simple_suffix_iter_factory, transform_fn, transform_fn_sample, Bound, Conversion,
    DeltaFnArg, DeltaPatType, Error, ErrorKind, FnArg, GenericParam, ItemFn, ItemFnAcc, Pat,
    PatIdent, PatType, PathArguments, PathSegment, Piece, Special, Stmt, SuffixIter, Type,
    TypePath, UuidGenerator, WhereClause, WherePredicate,
};

fn bounded(ty: &str, bound: Bound) -> WherePredicate {
    WherePredicate::Bounded {
        ty: ty.to_string(),
        bound,
    }
}

fn pat_ident(ident: &str) -> PatIdent {
    PatIdent {
        by_ref: false,
        mutability: false,
        ident: ident.to_string(),
        subpat: None,
    }
}

#[test]
fn a_type_is_rewritten_into_what_was_gathered() {
    let mut suffix_iter = simple_suffix_iter_factory();
    let mut delta = DeltaPatType::new();
    assert_eq!(delta.generic_params, vec![]);
    assert_eq!(delta.where_predicates, vec![]);

    // Result<AnyString, AnyPath>
    let ty = Type::generic(
        "Result",
        vec![Type::path("AnyString"), Type::path("AnyPath")],
    );
    let folded = delta.fold_type(&ty, &mut suffix_iter);
    assert_eq!(
        folded,
        Ok((
            Type::generic(
                "Result",
                vec![Type::path("AnyString0"), Type::path("AnyPath1")]
            ),
            None
        ))
    );

    // What the next type adds goes behind what is there, and the suffixes go on.
    let folded = delta.fold_type(&Type::path("AnyString"), &mut suffix_iter);
    assert_eq!(
        folded,
        Ok((Type::path("AnyString2"), Some(Special::AnyString)))
    );
    assert_eq!(
        delta.generic_params,
        vec![
            GenericParam::Type("AnyString0".to_string()),
            GenericParam::Type("AnyPath1".to_string()),
            GenericParam::Type("AnyString2".to_string()),
        ]
    );
    assert_eq!(
        delta.where_predicates,
        vec![
            bounded("AnyString0", Bound::AsRefStr),
            bounded("AnyPath1", Bound::AsRefPath),
            bounded("AnyString2", Bound::AsRefStr),
        ]
    );
    assert_eq!(suffix_iter.next(), "3");
}

#[test]
fn an_error_leaves_what_was_gathered_before_it() {
    let mut suffix_iter = simple_suffix_iter_factory();
    let mut delta = DeltaPatType::new();
    // (AnyString, AnyIter)
    let missing = TypePath {
        qself: None,
        leading_colon: false,
        segments: vec![PathSegment {
            ident: "AnyIter".to_string(),
            arguments: PathArguments::Empty,
        }],
    };
    let pieces = vec![
        Piece::Text("(".to_string()),
        Piece::Type(Type::path("AnyString")),
        Piece::Text(", ".to_string()),
        Piece::Type(Type::Path(missing.clone())),
        Piece::Text(")".to_string()),
    ];
    assert_eq!(
        delta.fold_pieces(&pieces, &mut suffix_iter),
        Err(Error {
            kind: ErrorKind::ArityError,
            special: Special::AnyIter,
            type_path: missing,
        })
    );
    assert_eq!(
        delta.generic_params,
        vec![GenericParam::Type("AnyString0".to_string())]
    );
    assert_eq!(
        delta.where_predicates,
        vec![bounded("AnyString0", Bound::AsRefStr)]
    );
    // One suffix was drawn, for the placeholder that was replaced.
    assert_eq!(suffix_iter.next(), "1");
}

#[test]
fn the_parts_of_a_path_are_rewritten_one_by_one() {
    let mut suffix_iter = simple_suffix_iter_factory();
    let mut delta = DeltaPatType::new();

    assert_eq!(
        delta.fold_piece(&Piece::Text("dyn ".to_string()), &mut suffix_iter),
        Ok(Piece::Text("dyn ".to_string()))
    );
    assert_eq!(
        delta.fold_piece(
            &Piece::Group(vec![
                Piece::Text("Item = ".to_string()),
                Piece::Type(Type::path("AnyPath")),
            ]),
            &mut suffix_iter
        ),
        Ok(Piece::Group(vec![
            Piece::Text("Item = ".to_string()),
            Piece::Type(Type::path("AnyPath0")),
        ]))
    );

    let segment = PathSegment {
        ident: "AnyString".to_string(),
        arguments: PathArguments::AngleBracketed(vec![Piece::Type(Type::path("AnyString"))]),
    };
    // A segment alone is never replaced; only its arguments are looked at.
    assert_eq!(
        delta.fold_path_segment(&segment, &mut suffix_iter),
        Ok(PathSegment {
            ident: "AnyString".to_string(),
            arguments: PathArguments::AngleBracketed(vec![Piece::Type(Type::path(
                "AnyString1"
            ))]),
        })
    );
    assert_eq!(
        delta.fold_segments(&vec![], &mut suffix_iter),
        Ok(vec![])
    );

    let qualified = TypePath {
        qself: Some(vec![
            Piece::Text("<".to_string()),
            Piece::Type(Type::path("AnyPath")),
            Piece::Text(" as Tr>".to_string()),
        ]),
        leading_colon: false,
        segments: vec![PathSegment {
            ident: "Out".to_string(),
            arguments: PathArguments::AngleBracketed(vec![Piece::Type(Type::path(
                "AnyString",
            ))]),
        }],
    };
    let (folded, special) = delta.fold_type_path(&qualified, &mut suffix_iter).unwrap();
    assert_eq!(special, None);
    assert_eq!(folded.to_text(), "<AnyPath2 as Tr>::Out<AnyString3>");
}

#[test]
fn names_are_drawn_one_after_the_other() {
    let mut suffix_iter = simple_suffix_iter_factory();
    assert_eq!(DeltaPatType::create_suffix(&mut suffix_iter), "0");
    assert_eq!(
        DeltaPatType::create_generic(&Special::AnyIter, &mut suffix_iter),
        "AnyIter1"
    );
    assert_eq!(
        DeltaPatType::create_lifetime(&Special::AnyNdArray, &mut suffix_iter),
        "any_nd_array2"
    );

    let mut delta = DeltaPatType::new();
    assert_eq!(
        delta.create_maybe_lifetime(&Special::AnyPath, &mut suffix_iter),
        None
    );
    assert_eq!(delta.generic_params, vec![]);
    assert_eq!(
        delta.create_maybe_lifetime(&Special::AnyNdArray, &mut suffix_iter),
        Some("any_nd_array3".to_string())
    );
    assert_eq!(
        delta.generic_params,
        vec![GenericParam::Lifetime("any_nd_array3".to_string())]
    );
    assert_eq!(delta.where_predicates, vec![]);
}

#[test]
fn one_placeholder_is_defined() {
    let written = TypePath::from_ident("Written".to_string());
    let mut suffix_iter = simple_suffix_iter_factory();
    let mut delta = DeltaPatType::new();

    assert_eq!(
        delta.create_and_define_generic(
            Special::AnyNdArray,
            Some(Type::path("u8")),
            &written,
            &mut suffix_iter
        ),
        Ok(TypePath::from_ident("AnyNdArray0".to_string()))
    );
    assert_eq!(
        delta.generic_params,
        vec![
            GenericParam::Lifetime("any_nd_array1".to_string()),
            GenericParam::Type("AnyNdArray0".to_string()),
        ]
    );
    assert_eq!(
        delta.where_predicates,
        vec![bounded(
            "AnyNdArray0",
            Bound::IntoArrayView1("any_nd_array1".to_string(), Type::path("u8"))
        )]
    );

    // A refusal draws nothing and adds nothing.
    assert_eq!(
        delta.create_and_define_generic(Special::AnyNdArray, None, &written, &mut suffix_iter),
        Err(Error {
            kind: ErrorKind::ArityError,
            special: Special::AnyNdArray,
            type_path: written.clone(),
        })
    );
    assert_eq!(delta.generic_params.len(), 2);
    assert_eq!(delta.where_predicates.len(), 1);
    assert_eq!(suffix_iter.next(), "2");
}

#[test]
fn the_statement_is_for_the_placeholder_that_the_type_itself_was() {
    assert_eq!(
        DeltaPatType::generate_any_stmt(None, &pat_ident("x")),
        None
    );
    assert_eq!(
        DeltaPatType::generate_any_stmt(Some(Special::AnyIter), &pat_ident("x")),
        Some(Stmt::Rebind {
            ident: "x".to_string(),
            conversion: Conversion::IntoIter
        })
    );
}

#[test]
fn what_one_parameter_adds() {
    let mut suffix_iter = simple_suffix_iter_factory();

    let untouched = FnArg::Receiver("&self".to_string());
    assert_eq!(
        DeltaFnArg::new(&untouched, &mut suffix_iter),
        Ok(DeltaFnArg {
            fn_arg: untouched,
            generic_params: vec![],
            where_predicates: vec![],
            stmt: None,
        })
    );

    let inside = FnArg::typed("v", Type::generic("Vec", vec![Type::path("AnyPath")]));
    assert_eq!(
        DeltaFnArg::new(&inside, &mut suffix_iter),
        Ok(DeltaFnArg {
            fn_arg: FnArg::typed("v", Type::generic("Vec", vec![Type::path("AnyPath0")])),
            generic_params: vec![GenericParam::Type("AnyPath0".to_string())],
            where_predicates: vec![bounded("AnyPath0", Bound::AsRefPath)],
            stmt: None,
        })
    );

    let itself = FnArg::typed("p", Type::path("AnyPath"));
    assert_eq!(
        DeltaFnArg::new(&itself, &mut suffix_iter),
        Ok(DeltaFnArg {
            fn_arg: FnArg::typed("p", Type::path("AnyPath1")),
            generic_params: vec![GenericParam::Type("AnyPath1".to_string())],
            where_predicates: vec![bounded("AnyPath1", Bound::AsRefPath)],
            stmt: Some(Stmt::Rebind {
                ident: "p".to_string(),
                conversion: Conversion::AsRef
            }),
        })
    );
}

#[test]
fn which_parameters_are_rewritten() {
    let normal = FnArg::typed("x", Type::path("u8"));
    let (ident, pat_type) = DeltaFnArg::is_normal_fn_arg(&normal).unwrap();
    assert_eq!(ident.ident, "x");
    assert_eq!(pat_type.ty, Type::path("u8"));

    assert_eq!(
        DeltaFnArg::is_normal_fn_arg(&FnArg::Receiver("self".to_string())),
        None
    );
    assert_eq!(
        DeltaFnArg::is_normal_fn_arg(&FnArg::typed("x", Type::verbatim("&u8"))),
        None
    );
    assert_eq!(
        DeltaFnArg::is_normal_fn_arg(&FnArg::Typed(PatType {
            attrs: vec![],
            pat: Pat::Other("_".to_string()),
            ty: Type::path("u8"),
        })),
        None
    );
}

#[test]
fn the_parts_of_the_new_function_are_gathered() {
    let mut old_fn = ItemFn::new(
        "pub",
        "f",
        vec![FnArg::typed("gone", Type::path("u8"))],
        Some("u8"),
        vec![Stmt::verbatim("first();"), Stmt::verbatim("second()")],
    );
    old_fn.sig.generics.params = vec![GenericParam::Verbatim("T".to_string())];
    old_fn.sig.generics.where_clause = Some(WhereClause {
        predicates: vec![WherePredicate::Verbatim("T: Copy".to_string())],
    });
    assert_eq!(
        ItemFnAcc::extract_where_predicates(&old_fn),
        vec![WherePredicate::Verbatim("T: Copy".to_string())]
    );

    let acc = ItemFnAcc::init(&old_fn);
    assert_eq!(acc.fn_args, vec![]);
    assert_eq!(acc.generic_params, old_fn.sig.generics.params);
    assert_eq!(acc.stmts, old_fn.block.stmts);
    assert_eq!(acc.to_generics(), old_fn.sig.generics);

    let rebind = |ident: &str| Stmt::Rebind {
        ident: ident.to_string(),
        conversion: Conversion::AsRef,
    };
    let acc = acc.fold(DeltaFnArg {
        fn_arg: FnArg::typed("a", Type::path("A")),
        generic_params: vec![GenericParam::Type("A".to_string())],
        where_predicates: vec![bounded("A", Bound::AsRefStr)],
        stmt: Some(rebind("a")),
    });
    let acc = acc.fold(DeltaFnArg {
        fn_arg: FnArg::typed("n", Type::path("u8")),
        generic_params: vec![],
        where_predicates: vec![],
        stmt: None,
    });
    let acc = acc.fold(DeltaFnArg {
        fn_arg: FnArg::typed("b", Type::path("B")),
        generic_params: vec![
            GenericParam::Lifetime("b".to_string()),
            GenericParam::Type("B".to_string()),
        ],
        where_predicates: vec![bounded("B", Bound::AsRefPath)],
        stmt: Some(rebind("b")),
    });

    assert_eq!(
        acc.to_item_fn().to_text(),
        "pub fn f<'b, T, A, B>(a: A, n: u8, b: B) -> u8 \
         where T: Copy, A: AsRef<str>, B: AsRef<std::path::Path> \
         { let b = b.as_ref(); let a = a.as_ref(); first(); second() }"
    );
    assert_eq!(
        acc.to_where_clause().unwrap().predicates,
        vec![
            WherePredicate::Verbatim("T: Copy".to_string()),
            bounded("A", Bound::AsRefStr),
            bounded("B", Bound::AsRefPath),
        ]
    );
}

#[test]
fn without_predicates_there_is_no_where_clause() {
    let old_fn = ItemFn::new("", "f", vec![], None, vec![]);
    assert_eq!(ItemFnAcc::extract_where_predicates(&old_fn), vec![]);
    let acc = ItemFnAcc::init(&old_fn);
    assert_eq!(acc.to_where_clause(), None);
    assert_eq!(acc.to_item_fn(), old_fn);
}

#[test]
fn the_suffixes_go_on_where_the_source_stands() {
    let mut suffix_iter = simple_suffix_iter_factory();
    for _ in 0..9 {
        suffix_iter.next();
    }
    let before = || {
        ItemFn::new(
            "",
            "f",
            vec![
                FnArg::typed("a", Type::path("AnyString")),
                FnArg::typed("b", Type::path("AnyString")),
            ],
            None,
            vec![],
        )
    };
    let first = transform_fn(before(), &mut suffix_iter).unwrap();
    assert_eq!(
        first.to_text(),
        "fn f<AnyString9, AnyString10>(a: AnyString9, b: AnyString10) \
         where AnyString9: AsRef<str>, AnyString10: AsRef<str> \
         { let b = b.as_ref(); let a = a.as_ref(); }"
    );
    let second = transform_fn(before(), &mut suffix_iter).unwrap();
    assert_eq!(
        second.sig.inputs,
        vec![
            FnArg::typed("a", Type::path("AnyString11")),
            FnArg::typed("b", Type::path("AnyString12")),
        ]
    );
}

#[test]
fn suffixes_with_a_uuid() {
    let mut generator = UuidGenerator::with_uuid("67e55044-10b1-426f-9247-bb680e5fe0c8");
    let before = ItemFn::new(
        "",
        "f",
        vec![FnArg::typed(
            "a",
            Type::generic("AnyNdArray", vec![Type::path("u8")]),
        )],
        None,
        vec![],
    );
    let after = transform_fn(before, &mut generator).unwrap();
    assert_eq!(
        after.sig.generics.params,
        vec![
            GenericParam::Lifetime(
                "any_nd_arrayU67e55044_10b1_426f_9247_bb680e5fe0c8_1".to_string()
            ),
            GenericParam::Type("AnyNdArrayU67e55044_10b1_426f_9247_bb680e5fe0c8_0".to_string()),
        ]
    );
    assert_eq!(
        generator.next(),
        "U67e55044_10b1_426f_9247_bb680e5fe0c8_2"
    );
}

#[test]
fn a_fresh_uuid_for_every_rewriting() {
    let before = || {
        ItemFn::new(
            "",
            "f",
            vec![FnArg::typed("s", Type::path("AnyString"))],
            None,
            vec![],
        )
    };
    let name_of = |item_fn: &ItemFn| match &item_fn.sig.generics.params[..] {
        [GenericParam::Type(name)] => name.clone(),
        other => panic!("one type parameter was expected, not {other:?}"),
    };
    let first = name_of(&anyinput::input_special(before()).unwrap());
    let second = name_of(&anyinput::input_special(before()).unwrap());

    for name in [&first, &second] {
        let uuid = name
            .strip_prefix("AnyStringU")
            .and_then(|rest| rest.strip_suffix("_0"))
            .expect("the name is the placeholder, `U`, a UUID and the number");
        assert_eq!(uuid.len(), 36);
        assert!(uuid
            .chars()
            .all(|c| c == '_' || c.is_ascii_digit() || ('a'..='f').contains(&c)));
    }
    assert_ne!(first, second);
}

#[test]
fn the_sample_is_always_hello_world() {
    let given = ItemFn::new(
        "pub",
        "anything",
        vec![FnArg::typed("s", Type::path("AnyString"))],
        Some("u8"),
        vec![Stmt::verbatim("0")],
    );
    let sample = transform_fn_sample(given);
    assert_eq!(
        sample,
        ItemFn::new(
            "",
            "hello_world",
            vec![],
            None,
            vec![Stmt::verbatim("println!(\"Hello, world!\");")]
        )
    );
    assert_eq!(
        sample.to_text(),
        "fn hello_world() { println!(\"Hello, world!\"); }"
    );
}
