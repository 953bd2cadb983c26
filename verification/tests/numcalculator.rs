use toolbox::components::numcalculator::{no_number, NumCalculator, NumCalculatorMsg};

fn eval(expression: &str) -> String {
    let mut calc = NumCalculator::create();
    assert!(calc.update(NumCalculatorMsg::Eval(expression.to_string())));
    calc.result
}

#[test]
fn fresh_num_calculator_is_empty() {
    assert_eq!(NumCalculator::create().result, "");
}

#[test]
fn expression_is_evaluated_with_precedence() {
    assert_eq!(eval("1+2*3"), "7");
    assert_eq!(eval("(1+2)*3"), "9");
    assert_eq!(eval("1/4"), "0.25");
    assert_eq!(eval("-3"), "-3");
    assert_eq!(eval(" 2 ^ 10 "), "1024");
}

#[test]
fn failed_evaluation_clears_the_result() {
    let mut calc = NumCalculator::create();
    calc.update(NumCalculatorMsg::Eval("1+1".to_string()));
    assert_eq!(calc.result, "2");
    calc.update(NumCalculatorMsg::Eval("1+".to_string()));
    assert_eq!(calc.result, "");
    for bad in ["", "1+", "(1", "x", "1 $ 2", "foo(1)"] {
        assert_eq!(eval(bad), "", "{:?}", bad);
    }
}

#[test]
fn division_by_zero_clears_the_result() {
    assert_eq!(eval("1/0"), "");
    assert_eq!(eval("-1/0"), "");
    assert_eq!(eval("0/0"), "");
}

#[test]
fn show_keeps_numbers_and_drops_the_rest() {
    let mut calc = NumCalculator::create();
    calc.show(Some("7".to_string()));
    assert_eq!(calc.result, "7");
    calc.show(Some("inf".to_string()));
    assert_eq!(calc.result, "");
    calc.show(Some("-0.5".to_string()));
    assert_eq!(calc.result, "-0.5");
    calc.show(Some("-inf".to_string()));
    assert_eq!(calc.result, "");
    calc.show(Some("1e21".to_string()));
    assert_eq!(calc.result, "1e21");
    calc.show(Some("NaN".to_string()));
    assert_eq!(calc.result, "");
    calc.show(Some("info".to_string()));
    assert_eq!(calc.result, "info");
    calc.show(None);
    assert_eq!(calc.result, "");
}

#[test]
fn no_number_names_exactly_three_texts() {
    for text in ["inf", "-inf", "NaN"] {
        assert!(no_number(text));
    }
    for text in ["", "0", "Inf", "nan", "+inf", "infinity", "in", "-in", "NaNa", "1"] {
        assert!(!no_number(text));
    }
    assert!(no_number(&f64::INFINITY.to_string()));
    assert!(no_number(&f64::NEG_INFINITY.to_string()));
    assert!(no_number(&f64::NAN.to_string()));
}
