use unnum::generate::{
    BINARY_KINDS, INT_HIGH, INT_LOW, OPERANDS_HIGH, OPERANDS_LOW, TERMINAL_KINDS, UNARY_KINDS,
    VARIADIC_KINDS,
};
use unnum::Expr;

fn operands(e: &Expr) -> Vec<&Expr> {
    match e {
        Expr::Zero | Expr::One | Expr::E | Expr::Pi | Expr::Int(_) | Expr::Float { .. } => vec![],
        Expr::UnaryMinus(x)
        | Expr::Floor(x)
        | Expr::Ceil(x)
        | Expr::Round(x)
        | Expr::Sin(x)
        | Expr::Cos(x)
        | Expr::Tan(x) => vec![&**x],
        Expr::Add(es) | Expr::Prod(es) => es.iter().collect(),
        Expr::Div { num_denom: p } | Expr::Pow { b_t: p } | Expr::Sqrt { num_rootbase: p } => {
            vec![&p.0, &p.1]
        }
    }
}

fn height(e: &Expr) -> u32 {
    operands(e).into_iter().map(|x| 1 + height(x)).max().unwrap_or(0)
}

fn size(e: &Expr) -> u64 {
    1 + operands(e).into_iter().map(size).sum::<u64>()
}

fn size_bound(level: u32) -> u64 {
    match level {
        0 => 1,
        1 => 2,
        _ => 1 + 5 * size_bound(level - 1),
    }
}

fn sums_and_products_have_two_to_five(e: &Expr) -> bool {
    let here = match e {
        Expr::Add(es) | Expr::Prod(es) => (2..=5).contains(&es.len()),
        _ => true,
    };
    here && operands(e).into_iter().all(sums_and_products_have_two_to_five)
}

#[test]
fn the_ranges_of_the_grammar() {
    assert_eq!(TERMINAL_KINDS, 4);
    assert_eq!(UNARY_KINDS, 7);
    assert_eq!(VARIADIC_KINDS, 2);
    assert_eq!(BINARY_KINDS, 3);
    assert_eq!((INT_LOW, INT_HIGH), (-100, 100));
    assert_eq!((OPERANDS_LOW, OPERANDS_HIGH), (2, 5));
}

#[test]
fn each_draw_selects_its_terminal() {
    assert_eq!(Expr::terminal(0, 17), Expr::Zero);
    assert_eq!(Expr::terminal(1, 17), Expr::One);
    assert_eq!(Expr::terminal(2, 17), Expr::E);
    assert_eq!(Expr::terminal(3, 17), Expr::Int(17));
    assert_eq!(Expr::terminal(3, -100), Expr::Int(-100));
}

#[test]
fn each_draw_selects_its_unary_operator() {
    let x = || Expr::Int(5);
    assert_eq!(Expr::unary(0, x()), Expr::UnaryMinus(Box::new(x())));
    assert_eq!(Expr::unary(1, x()), Expr::Floor(Box::new(x())));
    assert_eq!(Expr::unary(2, x()), Expr::Ceil(Box::new(x())));
    assert_eq!(Expr::unary(3, x()), Expr::Round(Box::new(x())));
    assert_eq!(Expr::unary(4, x()), Expr::Sin(Box::new(x())));
    assert_eq!(Expr::unary(5, x()), Expr::Cos(Box::new(x())));
    assert_eq!(Expr::unary(6, x()), Expr::Tan(Box::new(x())));
}

#[test]
fn each_draw_selects_its_variadic_operator() {
    let es = || vec![Expr::One, Expr::Int(2), Expr::E];
    assert_eq!(Expr::variadic(0, es()), Expr::Add(es()));
    assert_eq!(Expr::variadic(1, es()), Expr::Prod(es()));
}

#[test]
fn each_draw_selects_its_binary_operator() {
    let p = || Box::new((Expr::Int(22), Expr::Int(7)));
    assert_eq!(Expr::binary(0, Expr::Int(22), Expr::Int(7)), Expr::Div { num_denom: p() });
    assert_eq!(Expr::binary(1, Expr::Int(22), Expr::Int(7)), Expr::Pow { b_t: p() });
    assert_eq!(Expr::binary(2, Expr::Int(22), Expr::Int(7)), Expr::Sqrt { num_rootbase: p() });
}

#[test]
fn built_trees_render_as_their_operators() {
    assert_eq!(Expr::binary(0, Expr::Int(22), Expr::Int(7)).to_string(), "(22)/(7)");
    assert_eq!(Expr::unary(0, Expr::terminal(2, 0)).to_string(), "-(e)");
    assert_eq!(Expr::variadic(1, vec![Expr::terminal(3, 4), Expr::terminal(1, 0)]).to_string(), "4*1");
}

#[test]
fn terminals_are_of_level_zero_only() {
    for e in [Expr::Zero, Expr::One, Expr::E, Expr::Int(-100), Expr::Int(0), Expr::Int(100)] {
        assert!(e.is_of_level(0));
        assert!(!e.is_of_level(1));
        assert!(!e.is_of_level(2));
    }
}

#[test]
fn what_is_never_drawn_is_of_no_level() {
    let float = Expr::Float { bits: 1.5_f64.to_bits(), text: "1.5".to_string() };
    for e in [Expr::Pi, Expr::Int(101), Expr::Int(-101), Expr::Int(i64::MIN), float] {
        for level in 0..4 {
            assert!(!e.is_of_level(level));
        }
    }
    assert!(!Expr::Sin(Box::new(Expr::Pi)).is_of_level(1));
    assert!(!Expr::Add(vec![Expr::Sin(Box::new(Expr::Pi)), Expr::Sin(Box::new(Expr::E))]).is_of_level(2));
}

#[test]
fn unary_operators_are_of_level_one_only() {
    for pick in 0..7 {
        let e = Expr::unary(pick, Expr::One);
        assert!(!e.is_of_level(0));
        assert!(e.is_of_level(1));
        assert!(!e.is_of_level(2));
    }
    let twice = Expr::unary(0, Expr::unary(1, Expr::One));
    for level in 0..4 {
        assert!(!twice.is_of_level(level));
    }
}

#[test]
fn composite_level_asks_for_two_to_five_operands() {
    let unary = || Expr::Floor(Box::new(Expr::Int(3)));
    for count in 0..8 {
        let es: Vec<Expr> = (0..count).map(|_| unary()).collect();
        let fs: Vec<Expr> = (0..count).map(|_| unary()).collect();
        let expected = (2..=5).contains(&count);
        assert_eq!(Expr::Add(es).is_of_level(2), expected);
        assert_eq!(Expr::Prod(fs).is_of_level(2), expected);
    }
}

#[test]
fn composite_level_asks_for_operands_of_the_level_below() {
    let unary = || Expr::Cos(Box::new(Expr::E));
    let at_two = || Expr::Div { num_denom: Box::new((unary(), unary())) };
    assert!(at_two().is_of_level(2));
    assert!(!at_two().is_of_level(1));
    assert!(!at_two().is_of_level(3));
    let at_three = Expr::Prod(vec![at_two(), at_two(), at_two()]);
    assert!(at_three.is_of_level(3));
    assert!(!at_three.is_of_level(2));
    let uneven = Expr::Pow { b_t: Box::new((at_two(), unary())) };
    for level in 0..5 {
        assert!(!uneven.is_of_level(level));
    }
    let last_is_off = Expr::Add(vec![unary(), unary(), Expr::One]);
    assert!(!last_is_off.is_of_level(2));
    let leaves = Expr::Sqrt { num_rootbase: Box::new((Expr::One, Expr::One)) };
    assert!(!leaves.is_of_level(2));
    assert!(!leaves.is_of_level(1));
}

#[test]
fn depth_zero_gives_the_four_terminals_uniformly() {
    let mut rng = rand::rng();
    let runs = 10_000;
    let mut kinds = [0u32; 4];
    let mut values = vec![0u32; 201];
    for _ in 0..runs {
        let e = Expr::new_random(0, &mut rng);
        assert!(e.is_of_level(0));
        match e {
            Expr::Zero => kinds[0] += 1,
            Expr::One => kinds[1] += 1,
            Expr::E => kinds[2] += 1,
            Expr::Int(n) => {
                assert!((-100..=100).contains(&n));
                kinds[3] += 1;
                values[(n + 100) as usize] += 1;
            }
            other => panic!("not a terminal: {:?}", other),
        }
    }
    // each kind is expected 2500 times, with a standard deviation of about 43
    for count in kinds {
        assert!((2200..=2800).contains(&count), "kinds: {:?}", kinds);
    }
    // chi-square of the integer values against the uniform distribution on
    // 201 values: 200 degrees of freedom, mean 200, standard deviation 20
    let drawn = kinds[3] as f64;
    let expected = drawn / 201.0;
    let chi_square: f64 =
        values.iter().map(|&c| (c as f64 - expected) * (c as f64 - expected) / expected).sum();
    assert!(chi_square < 340.0, "chi-square {chi_square}");
    assert!(chi_square > 100.0, "chi-square {chi_square}");
}

#[test]
fn depth_one_gives_each_unary_operator_on_a_terminal() {
    let mut rng = rand::rng();
    let mut seen = [false; 7];
    for _ in 0..2_000 {
        let e = Expr::new_random(1, &mut rng);
        assert!(e.is_of_level(1));
        let (pick, x) = match &e {
            Expr::UnaryMinus(x) => (0, x),
            Expr::Floor(x) => (1, x),
            Expr::Ceil(x) => (2, x),
            Expr::Round(x) => (3, x),
            Expr::Sin(x) => (4, x),
            Expr::Cos(x) => (5, x),
            Expr::Tan(x) => (6, x),
            other => panic!("not a unary operator: {:?}", other),
        };
        assert!(x.is_of_level(0));
        seen[pick] = true;
    }
    assert_eq!(seen, [true; 7]);
}

#[test]
fn depth_two_gives_each_operator_and_each_number_of_operands() {
    let mut rng = rand::rng();
    let mut shapes = [false; 5];
    let mut counts = [false; 6];
    for _ in 0..5_000 {
        let e = Expr::new_random(2, &mut rng);
        assert!(e.is_of_level(2));
        let shape = match &e {
            Expr::Add(_) => 0,
            Expr::Prod(_) => 1,
            Expr::Div { .. } => 2,
            Expr::Pow { .. } => 3,
            Expr::Sqrt { .. } => 4,
            other => panic!("not a composite: {:?}", other),
        };
        shapes[shape] = true;
        let n = operands(&e).len();
        if shape < 2 {
            assert!((2..=5).contains(&n));
            counts[n] = true;
        } else {
            assert_eq!(n, 2);
        }
        for x in operands(&e) {
            assert!(x.is_of_level(1));
        }
    }
    assert_eq!(shapes, [true; 5]);
    assert_eq!(counts, [false, false, true, true, true, true]);
}

#[test]
fn generation_returns_a_tree_of_the_asked_depth() {
    let mut rng = rand::rng();
    for level in 0..=7 {
        for _ in 0..20 {
            let e = Expr::new_random(level, &mut rng);
            assert!(e.is_of_level(level));
            assert_eq!(height(&e), level);
            assert!(size(&e) <= size_bound(level));
            assert!(sums_and_products_have_two_to_five(&e));
        }
    }
}

#[test]
fn generated_trees_render() {
    let mut rng = rand::rng();
    for _ in 0..200 {
        let e = Expr::new_random(2, &mut rng);
        let text = e.to_string();
        assert!(!text.is_empty());
        assert_eq!(text, e.to_string());
        assert_eq!(text.matches('(').count(), text.matches(')').count());
    }
}
