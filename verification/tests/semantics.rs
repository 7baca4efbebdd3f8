use schierke::evaluation::Operator;
use schierke::Environment;
use schierke::Expression;
use schierke::Schierke;
use schierke::SchierkeError;
use schierke::SchierkeResult;

fn name(text: &str) -> Expression {
    Expression::String(text.to_string())
}

fn bind(text: &str, value: Expression) -> Expression {
    Expression::Variable(vec![name(text), value])
}

fn read(text: &str) -> Expression {
    Expression::Variable(vec![name(text)])
}

#[test]
fn divide_rounds_towards_zero() {
    let mut schierke = Schierke::new();
    let cases: [(i64, i64, i64); 6] = [
        (7, 2, 3),
        (-7, 2, -3),
        (7, -2, -3),
        (-7, -2, 3),
        (0, 5, 0),
        (6, 3, 2),
    ];
    for (a, b, expected) in cases {
        let expression = Expression::Divide(vec![Expression::Number(a), Expression::Number(b)]);
        assert_eq!(schierke.eval(expression, None), Ok(Expression::Number(expected)));
    }
}

#[test]
fn arithmetic_on_two_numbers() {
    let mut schierke = Schierke::new();
    let pairs: [(i64, i64); 4] = [(5, 3), (-5, 3), (0, -9), (i64::MAX, 0)];
    for (a, b) in pairs {
        let sum = Expression::Add(vec![Expression::Number(a), Expression::Number(b)]);
        assert_eq!(schierke.eval(sum, None), Ok(Expression::Number(a + b)));
        let difference = Expression::Subtract(vec![Expression::Number(a), Expression::Number(b)]);
        assert_eq!(schierke.eval(difference, None), Ok(Expression::Number(a - b)));
        let product = Expression::Multiply(vec![Expression::Number(a), Expression::Number(b)]);
        assert_eq!(schierke.eval(product, None), Ok(Expression::Number(a * b)));
    }
}

#[test]
fn operator_computes() {
    assert_eq!(Operator::Add.compute(2, 3), 5);
    assert_eq!(Operator::Subtract.compute(2, 3), -1);
    assert_eq!(Operator::Multiply.compute(-4, 3), -12);
    assert_eq!(Operator::Divide.compute(-9, 2), -4);
    assert_eq!(Operator::Divide.compute(i64::MIN, 1), i64::MIN);
}

#[test]
fn operands_are_evaluated_left_then_right() {
    let mut schierke = Schierke::new();
    // The right part reads what the left part has just bound.
    let expression = Expression::Subtract(vec![bind("x", Expression::Number(10)), read("x")]);
    assert_eq!(schierke.eval(expression, None), Ok(Expression::Number(0)));
}

#[test]
fn undefined_variable_on_a_fresh_evaluator() {
    let mut schierke = Schierke::new();
    assert_eq!(schierke.eval(read("y"), None), Err(SchierkeError::UndefinedVariable));
}

#[test]
fn variable_with_no_part_or_three_parts() {
    let mut schierke = Schierke::new();
    assert_eq!(
        schierke.eval(Expression::Variable(vec![]), None),
        Err(SchierkeError::TooMuchArguments)
    );
    let three = Expression::Variable(vec![name("x"), Expression::Number(1), Expression::Number(2)]);
    assert_eq!(schierke.eval(three, None), Err(SchierkeError::TooMuchArguments));
}

#[test]
fn arithmetic_with_a_wrong_number_of_parts() {
    let mut schierke = Schierke::new();
    assert_eq!(
        schierke.eval(Expression::Add(vec![]), None),
        Err(SchierkeError::UnknownExpression)
    );
    assert_eq!(
        schierke.eval(Expression::Multiply(vec![Expression::Number(1)]), None),
        Err(SchierkeError::UnknownExpression)
    );
    let three = Expression::Divide(vec![
        Expression::Number(1),
        Expression::Number(2),
        Expression::Number(3),
    ]);
    assert_eq!(schierke.eval(three, None), Err(SchierkeError::UnknownExpression));
}

#[test]
fn arithmetic_on_a_text() {
    let mut schierke = Schierke::new();
    let left = Expression::Add(vec![name("a"), Expression::Number(2)]);
    assert_eq!(schierke.eval(left, None), Err(SchierkeError::UnknownExpression));
    let right = Expression::Add(vec![Expression::Number(2), name("a")]);
    assert_eq!(schierke.eval(right, None), Err(SchierkeError::UnknownExpression));
}

#[test]
fn a_failing_part_gives_its_own_error() {
    let mut schierke = Schierke::new();
    let expression = Expression::Add(vec![read("missing"), name("a")]);
    assert_eq!(schierke.eval(expression, None), Err(SchierkeError::UndefinedVariable));
    let binding = bind("x", Expression::Add(vec![]));
    assert_eq!(schierke.eval(binding, None), Err(SchierkeError::UnknownExpression));
    assert_eq!(schierke.eval(read("x"), None), Err(SchierkeError::UndefinedVariable));
}

#[test]
fn a_literal_evaluates_the_same_twice() {
    let mut schierke = Schierke::new();
    assert_eq!(schierke.eval(bind("x", Expression::Number(1)), None), Ok(Expression::Number(1)));
    let before = schierke.clone();
    let first = schierke.eval(Expression::Number(7), None);
    let second = schierke.eval(Expression::Number(7), None);
    assert_eq!(first, Ok(Expression::Number(7)));
    assert_eq!(first, second);
    assert!(schierke == before);
    let text = schierke.eval(name("hello"), None);
    assert_eq!(text, Ok(name("hello")));
    assert!(schierke == before);
}

#[test]
fn a_binding_outlives_a_failed_sum() {
    let mut schierke = Schierke::new();
    let expression = Expression::Add(vec![bind("x", Expression::Number(2)), name("a")]);
    assert_eq!(schierke.eval(expression, None), Err(SchierkeError::UnknownExpression));
    assert_eq!(schierke.eval(read("x"), None), Ok(Expression::Number(2)));
}

#[test]
fn a_binding_outlives_a_failure_further_down() {
    let mut schierke = Schierke::new();
    let expression = Expression::Multiply(vec![
        bind("x", Expression::Number(2)),
        Expression::Add(vec![read("nothing"), Expression::Number(1)]),
    ]);
    assert_eq!(schierke.eval(expression, None), Err(SchierkeError::UndefinedVariable));
    assert_eq!(schierke.eval(read("x"), None), Ok(Expression::Number(2)));
}

#[test]
fn a_sum_that_succeeds_restores_its_working_bindings() {
    let mut schierke = Schierke::new();
    let expression = Expression::Add(vec![bind("x", Expression::Number(2)), Expression::Number(3)]);
    assert_eq!(schierke.eval(expression, None), Ok(Expression::Number(5)));
    assert_eq!(schierke.eval(read("x"), None), Err(SchierkeError::UndefinedVariable));
}

#[test]
fn parts_do_not_see_the_given_environment() {
    let mut schierke = Schierke::new();
    let mut given = Environment::new(None);
    given.define(name("x"), Expression::Number(5));
    // Read at the top: the given environment is the working one.
    assert_eq!(schierke.eval(read("x"), Some(given.clone())), Ok(Expression::Number(5)));
    // It has become the default environment.
    assert_eq!(schierke.eval(read("x"), None), Ok(Expression::Number(5)));

    let mut fresh = Schierke::new();
    let sum = Expression::Add(vec![read("x"), Expression::Number(1)]);
    assert_eq!(fresh.eval(sum, Some(given)), Err(SchierkeError::UndefinedVariable));
}

#[test]
fn a_given_environment_replaces_the_default_one() {
    let mut schierke = Schierke::new();
    assert_eq!(schierke.eval(bind("old", Expression::Number(1)), None), Ok(Expression::Number(1)));
    let mut given = Environment::new(None);
    given.define(name("new"), Expression::Number(2));
    assert_eq!(schierke.eval(Expression::Number(0), Some(given)), Ok(Expression::Number(0)));
    assert_eq!(schierke.eval(read("new"), None), Ok(Expression::Number(2)));
    assert_eq!(schierke.eval(read("old"), None), Err(SchierkeError::UndefinedVariable));
}

#[test]
fn binding_a_text() {
    let mut schierke = Schierke::new();
    assert_eq!(schierke.eval(bind("greeting", name("hello")), None), Ok(name("hello")));
    assert_eq!(schierke.eval(read("greeting"), None), Ok(name("hello")));
}

#[test]
fn a_number_can_name_a_variable() {
    let mut schierke = Schierke::new();
    let binding = Expression::Variable(vec![Expression::Number(-12), Expression::Number(1)]);
    assert_eq!(schierke.eval(binding, None), Ok(Expression::Number(1)));
    assert_eq!(schierke.eval(read("-12"), None), Ok(Expression::Number(1)));
}

#[test]
fn environment_define_and_lookup() {
    let mut environment = Environment::new(None);
    assert_eq!(environment.lookup("x".to_string()), Err(SchierkeError::UndefinedVariable));
    assert_eq!(environment.define(name("x"), Expression::Number(2)), Expression::Number(2));
    assert_eq!(environment.lookup("x".to_string()), Ok(Expression::Number(2)));
    assert_eq!(environment.lookup("X".to_string()), Err(SchierkeError::UndefinedVariable));
    assert_eq!(environment.define(name("x"), name("two")), name("two"));
    assert_eq!(environment.lookup("x".to_string()), Ok(name("two")));
    let raw = Expression::Add(vec![Expression::Number(1), Expression::Number(2)]);
    environment.define(name("y"), raw.clone());
    assert_eq!(environment.lookup("y".to_string()), Ok(raw));
    assert_eq!(environment.lookup("x".to_string()), Ok(name("two")));
}

#[test]
fn environment_new_keeps_what_it_is_given() {
    let mut given = Environment::new(None);
    given.define(name("x"), Expression::Number(2));
    let made = Environment::new(Some(given.clone()));
    assert!(made == given);
    assert!(Environment::new(None) == Environment::default());
}

#[test]
fn environment_load_overwrites() {
    let mut mine = Environment::new(None);
    mine.define(name("a"), Expression::Number(1));
    mine.define(name("b"), Expression::Number(2));
    let mut theirs = Environment::new(None);
    theirs.define(name("b"), Expression::Number(20));
    mine.load(theirs);
    assert_eq!(mine.lookup("a".to_string()), Err(SchierkeError::UndefinedVariable));
    assert_eq!(mine.lookup("b".to_string()), Ok(Expression::Number(20)));
}

#[test]
fn environment_equality_ignores_order() {
    let mut first = Environment::new(None);
    first.define(name("a"), Expression::Number(1));
    first.define(name("b"), Expression::Number(2));
    let mut second = Environment::new(None);
    second.define(name("b"), Expression::Number(2));
    second.define(name("a"), Expression::Number(1));
    assert!(first == second);
    second.define(name("a"), Expression::Number(3));
    assert!(first != second);
    let mut third = first.clone();
    assert!(third == first);
    third.define(name("c"), Expression::Number(0));
    assert!(third != first);
    assert!(first != third);
}

#[test]
fn expression_as_text() {
    assert_eq!(Expression::Number(0).to_string(), "0");
    assert_eq!(Expression::Number(7).to_string(), "7");
    assert_eq!(Expression::Number(-305).to_string(), "-305");
    assert_eq!(Expression::Number(i64::MAX).to_string(), "9223372036854775807");
    assert_eq!(Expression::Number(i64::MIN).to_string(), "-9223372036854775808");
    assert_eq!(name("x").to_string(), "x");
    assert_eq!(read("x").to_string(), "x");
    assert_eq!(bind("x", Expression::Number(1)).to_string(), "x");
    let pair = vec![Expression::Number(1), name("b")];
    assert_eq!(Expression::Add(pair.clone()).to_string(), "1 + b");
    assert_eq!(Expression::Subtract(pair.clone()).to_string(), "1 - b");
    assert_eq!(Expression::Multiply(pair.clone()).to_string(), "1 * b");
    assert_eq!(Expression::Divide(pair).to_string(), "1 / b");
    let nested = Expression::Add(vec![
        Expression::Multiply(vec![Expression::Number(2), Expression::Number(3)]),
        read("x"),
    ]);
    assert_eq!(nested.to_string(), "2 * 3 + x");
}

#[test]
fn expression_as_text_with_missing_parts() {
    assert_eq!(Expression::Variable(vec![]).to_string(), "");
    assert_eq!(Expression::Add(vec![]).to_string(), " + ");
    assert_eq!(Expression::Divide(vec![Expression::Number(4)]).to_string(), "4 / ");
}

#[test]
fn expression_equality_and_clone() {
    let tree = Expression::Add(vec![
        Expression::Number(2),
        bind("x", Expression::Subtract(vec![name("a"), Expression::Number(1)])),
    ]);
    let copy = tree.clone();
    assert_eq!(tree, copy);
    assert_ne!(Expression::Number(1), Expression::Number(2));
    assert_ne!(Expression::Number(1), name("1"));
    assert_ne!(
        Expression::Add(vec![Expression::Number(1), Expression::Number(2)]),
        Expression::Subtract(vec![Expression::Number(1), Expression::Number(2)])
    );
    assert_ne!(
        Expression::Add(vec![Expression::Number(1)]),
        Expression::Add(vec![Expression::Number(1), Expression::Number(2)])
    );
    assert_ne!(
        Expression::Add(vec![Expression::Number(1), Expression::Number(2)]),
        Expression::Add(vec![Expression::Number(2), Expression::Number(1)])
    );
}

#[test]
fn number_from_expression() {
    assert_eq!(i64::try_from(Expression::Number(42)), Ok(42));
    assert_eq!(
        i64::try_from(name("42")),
        Err("Cannot convert non-number Expression to i64")
    );
    assert!(i64::try_from(Expression::Add(vec![])).is_err());
}

#[test]
fn error_messages() {
    assert_eq!(SchierkeError::ParseError.to_string(), "Error while parsing passed expression");
    assert_eq!(
        SchierkeError::UnknownExpression.to_string(),
        "The following expression is unknown"
    );
    assert_eq!(
        SchierkeError::UndefinedVariable.to_string(),
        "The following variable is undefined"
    );
    assert_eq!(SchierkeError::TooMuchArguments.to_string(), "Too much arguments passed");
}

#[test]
fn result_as_text_and_equality() {
    assert_eq!(SchierkeResult::Number(-3).to_string(), "-3");
    assert_eq!(SchierkeResult::String("hi".to_string()).to_string(), "hi");
    let sum = Expression::Add(vec![Expression::Number(1), Expression::Number(2)]);
    assert_eq!(SchierkeResult::Expression(sum.clone()).to_string(), "1 + 2");
    assert!(SchierkeResult::Number(1) == SchierkeResult::Number(1));
    assert!(SchierkeResult::Number(1) != SchierkeResult::Number(2));
    assert!(SchierkeResult::Number(1) != SchierkeResult::Expression(Expression::Number(1)));
    assert!(SchierkeResult::Expression(sum.clone()) == SchierkeResult::Expression(sum));
}

#[test]
fn evaluators_compare_by_their_bindings() {
    let mut first = Schierke::new();
    let mut second = Schierke::default();
    assert!(first == second);
    assert_eq!(first.eval(bind("x", Expression::Number(1)), None), Ok(Expression::Number(1)));
    assert!(first != second);
    assert_eq!(second.eval(bind("x", Expression::Number(1)), None), Ok(Expression::Number(1)));
    assert!(first == second);
}
