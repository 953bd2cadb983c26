//! The value of an arithmetic expression, as text.

use crate::text::chars_of;
use vstd::prelude::*;

verus! {

/// The one field of the expression widget.
pub struct NumCalculator {
    pub result: String,
}

/// What can happen to the expression widget: an expression was typed.
pub enum NumCalculatorMsg {
    Eval(String),
}

/// The error that fasteval gives for an expression that it cannot evaluate.
#[verifier::external_type_specification]
#[verifier::external_body]
pub struct ExEvalError(fasteval::Error);

/// The value that `fasteval::ez_eval` finds for an expression without
/// variables, written as Rust writes a float, or fasteval's error. Nothing
/// is claimed of the value: its last digits may differ from one machine to
/// the next.
#[verifier::external_body]
fn evaluate(expression: &str) -> (value: Result<String, fasteval::Error>) {
    let mut ns = fasteval::EmptyNamespace;
    fasteval::ez_eval(expression, &mut ns).map(|v| v.to_string())
}

/// `t` is how a float that is no number is written: an infinity or NaN.
pub open spec fn is_no_number(t: Seq<char>) -> bool {
    ||| t == seq!['i', 'n', 'f']
    ||| t == seq!['-', 'i', 'n', 'f']
    ||| t == seq!['N', 'a', 'N']
}

/// What the result field shows for an evaluation: the value as it is
/// written, and nothing where the evaluation failed or gave no number, as a
/// division by zero does.
pub open spec fn shown(value: Option<Seq<char>>) -> Seq<char> {
    match value {
        Some(t) => if is_no_number(t) {
            Seq::empty()
        } else {
            t
        },
        None => Seq::empty(),
    }
}

/// The characters of an evaluation's text.
pub open spec fn written(value: Option<String>) -> Option<Seq<char>> {
    match value {
        Some(text) => Some(text@),
        None => None,
    }
}

/// The result field never shows an infinity or NaN.
pub proof fn shown_is_a_number(value: Option<Seq<char>>)
    ensures
        !is_no_number(shown(value)),
{
    assert(seq!['i', 'n', 'f'].len() == 3);
    assert(seq!['-', 'i', 'n', 'f'].len() == 4);
    assert(seq!['N', 'a', 'N'].len() == 3);
}

/// Whether `text` is how a float that is no number is written.
pub fn no_number(text: &str) -> (b: bool)
    ensures
        b == is_no_number(text@),
{
    let chars = chars_of(text);
    let n = chars.len();
    let inf = n == 3 && chars[0] == 'i' && chars[1] == 'n' && chars[2] == 'f';
    let minus_inf = n == 4 && chars[0] == '-' && chars[1] == 'i' && chars[2] == 'n' && chars[3]
        == 'f';
    let nan = n == 3 && chars[0] == 'N' && chars[1] == 'a' && chars[2] == 'N';
    proof {
        assert(inf == (chars@ =~= seq!['i', 'n', 'f']));
        assert(minus_inf == (chars@ =~= seq!['-', 'i', 'n', 'f']));
        assert(nan == (chars@ =~= seq!['N', 'a', 'N']));
    }
    inf || minus_inf || nan
}

impl NumCalculator {
    /// The widget before any input: an empty result.
    pub fn create() -> (fresh: Self)
        ensures
            fresh.result@ == Seq::<char>::empty(),
    {
        NumCalculator { result: String::new() }
    }

    /// Shows an evaluation: `value` is the value as it is written, or
    /// nothing where the evaluation failed.
    pub fn show(&mut self, value: Option<String>)
        ensures
            final(self).result@ == shown(written(value)),
    {
        self.result = match value {
            Some(text) => {
                if no_number(text.as_str()) {
                    String::new()
                } else {
                    text
                }
            },
            None => String::new(),
        };
    }

    /// Takes one message and says whether the widget is to be drawn again,
    /// which it always is. The expression is handed to fasteval as it was
    /// typed, and the result field shows what `show` makes of the outcome,
    /// whatever it is: never an infinity or NaN.
    pub fn update(&mut self, msg: NumCalculatorMsg) -> (render: bool)
        ensures
            render,
            exists|value: Option<Seq<char>>| final(self).result@ == #[trigger] shown(value),
            !is_no_number(final(self).result@),
    {
        match msg {
            NumCalculatorMsg::Eval(expression) => {
                let value = match evaluate(expression.as_str()) {
                    Ok(text) => Some(text),
                    Err(_) => None,
                };
                proof {
                    shown_is_a_number(written(value));
                }
                self.show(value);
                assert(self.result@ == shown(written(value)));
            },
        }
        true
    }
}

} // verus!
