use wstp::expr::{real_is_nan, Expression};

#[test]
fn symbol_with_context_is_accepted() {
    assert_eq!(
        Expression::symbol("System`Plus"),
        Some(Expression::Symbol("System`Plus".to_string()))
    );
    assert_eq!(
        Expression::symbol("A`B`c"),
        Some(Expression::Symbol("A`B`c".to_string()))
    );
}

#[test]
fn symbol_without_context_is_refused() {
    assert_eq!(Expression::symbol("Plus"), None);
    assert_eq!(Expression::symbol(""), None);
    assert_eq!(Expression::symbol("`Plus"), None);
    assert_eq!(Expression::symbol("System`"), None);
}

#[test]
fn real_from_bits_refuses_nan_only() {
    assert_eq!(Expression::real_from_bits(f64::NAN.to_bits()), None);
    assert_eq!(Expression::real_from_bits(0x7ff0_0000_0000_0001), None);
    assert_eq!(Expression::real_from_bits(0xfff8_0000_0000_0000), None);
    assert_eq!(
        Expression::real_from_bits(f64::INFINITY.to_bits()),
        Some(Expression::Real(0x7ff0_0000_0000_0000))
    );
    assert_eq!(
        Expression::real_from_bits(f64::NEG_INFINITY.to_bits()),
        Some(Expression::Real(0xfff0_0000_0000_0000))
    );
    assert_eq!(
        Expression::real_from_bits(1.0f64.to_bits()),
        Some(Expression::Real(0x3ff0_0000_0000_0000))
    );
}

#[test]
fn nan_test_agrees_with_the_machine() {
    let values = [
        0.0,
        -0.0,
        1.0,
        -1.5,
        f64::MAX,
        f64::MIN,
        f64::MIN_POSITIVE,
        f64::EPSILON,
        f64::INFINITY,
        f64::NEG_INFINITY,
        f64::NAN,
        -f64::NAN,
    ];
    for value in values {
        assert_eq!(real_is_nan(value.to_bits()), value.is_nan());
    }
    assert!(real_is_nan(0x7fff_ffff_ffff_ffff));
    assert!(!real_is_nan(0x7fef_ffff_ffff_ffff));
    assert!(!real_is_nan(0x000f_ffff_ffff_ffff));
}

#[test]
fn constructors_build_the_variants() {
    assert_eq!(Expression::integer(7), Expression::Integer(7));
    assert_eq!(Expression::string("s"), Expression::String("s".to_string()));
    let e = Expression::normal(Expression::integer(1), vec![Expression::integer(2)]);
    assert_eq!(
        e,
        Expression::Normal {
            head: Box::new(Expression::Integer(1)),
            contents: vec![Expression::Integer(2)],
        }
    );
}

#[test]
fn well_formed_looks_at_every_node() {
    let good = Expression::normal(
        Expression::symbol("Global`f").unwrap(),
        vec![Expression::integer(1), Expression::Real(0)],
    );
    assert!(good.is_well_formed());
    let bad_head = Expression::normal(
        Expression::Symbol("f".to_string()),
        vec![Expression::integer(1)],
    );
    assert!(!bad_head.is_well_formed());
    let bad_argument = Expression::normal(
        Expression::symbol("Global`f").unwrap(),
        vec![
            Expression::integer(1),
            Expression::normal(
                Expression::symbol("Global`g").unwrap(),
                vec![Expression::Real(f64::NAN.to_bits())],
            ),
        ],
    );
    assert!(!bad_argument.is_well_formed());
    assert!(Expression::string("no ` needed").is_well_formed());
}

#[test]
fn copies_are_equal() {
    let e = Expression::normal(
        Expression::symbol("Global`f").unwrap(),
        vec![
            Expression::string("x"),
            Expression::normal(Expression::integer(1), vec![Expression::Real(5)]),
        ],
    );
    assert_eq!(e.duplicate(), e);
    assert_eq!(e.clone(), e);
}
