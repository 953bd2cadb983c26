//! One signed 64-bit integer in hexadecimal, decimal, octal and binary.

use crate::numeral::{
    lemma_reading_range, lemma_signed_round_trip, parse_signed, push_signed_numeral,
    signed_numeral, signed_reading,
};
use crate::text::chars_of;
use vstd::prelude::*;

verus! {

/// The four fields of the numeral widget.
pub struct NumConverter {
    pub hex: String,
    pub dec: String,
    pub oct: String,
    pub bin: String,
}

/// A `NumConverter` with its texts as sequences.
pub struct NumView {
    pub hex: Seq<char>,
    pub dec: Seq<char>,
    pub oct: Seq<char>,
    pub bin: Seq<char>,
}

impl View for NumConverter {
    type V = NumView;

    open spec fn view(&self) -> NumView {
        NumView { hex: self.hex@, dec: self.dec@, oct: self.oct@, bin: self.bin@ }
    }
}

/// What can happen to the numeral widget: one of its fields was edited.
pub enum NumConverterMsg {
    ConvertHex(String),
    ConvertDec(String),
    ConvertOct(String),
    ConvertBin(String),
}

/// The bases that the widget converts between.
#[derive(Clone, Copy, PartialEq, Eq, Structural)]
pub enum Base {
    Hex,
    Dec,
    Oct,
    Bin,
}

/// The radix of `base`.
pub open spec fn radix_of(base: Base) -> nat {
    match base {
        Base::Hex => 16,
        Base::Dec => 10,
        Base::Oct => 8,
        Base::Bin => 2,
    }
}

impl Base {
    /// The radix of the base.
    pub fn radix(self) -> (r: u64)
        ensures
            r == radix_of(self),
    {
        match self {
            Base::Hex => 16,
            Base::Dec => 10,
            Base::Oct => 8,
            Base::Bin => 2,
        }
    }
}

/// What `s` reads as in `base`: a signed integer that 64 bits hold.
pub open spec fn reading(base: Base, s: Seq<char>) -> Option<int> {
    signed_reading(s, radix_of(base) as int, i64::MIN as int, i64::MAX as int)
}

/// How `n` is written in `base`: its numeral in upper-case digits, with no
/// prefix and no zero in front, and for a negative number `-` and the
/// numeral of what it is below zero.
pub open spec fn writing(base: Base, n: i64) -> Seq<char> {
    signed_numeral(n as int, radix_of(base))
}

/// What field `shown` holds once `text` was typed into field `edited`: the
/// typed text in the edited field itself; in another field the typed number
/// in that field's base, or nothing where the text reads as no number.
pub open spec fn field(shown: Base, edited: Base, text: Seq<char>) -> Seq<char> {
    if shown == edited {
        text
    } else {
        match reading(edited, text) {
            Some(n) => writing(shown, n as i64),
            None => Seq::empty(),
        }
    }
}

/// The four fields once `text` was typed into field `edited`.
pub open spec fn converted(edited: Base, text: Seq<char>) -> NumView {
    NumView {
        hex: field(Base::Hex, edited, text),
        dec: field(Base::Dec, edited, text),
        oct: field(Base::Oct, edited, text),
        bin: field(Base::Bin, edited, text),
    }
}

/// The fields after `msg`, whatever they were before.
pub open spec fn after(msg: NumConverterMsg) -> NumView {
    match msg {
        NumConverterMsg::ConvertHex(value) => converted(Base::Hex, value@),
        NumConverterMsg::ConvertDec(value) => converted(Base::Dec, value@),
        NumConverterMsg::ConvertOct(value) => converted(Base::Oct, value@),
        NumConverterMsg::ConvertBin(value) => converted(Base::Bin, value@),
    }
}

/// Reads `text` as a signed 64-bit integer in `base`.
pub fn parse_in(base: Base, text: &str) -> (r: Option<i64>)
    ensures
        match r {
            Some(n) => reading(base, text@) == Some(n as int),
            None => reading(base, text@) is None,
        },
{
    let chars = chars_of(text);
    parse_signed(chars.as_slice(), base.radix())
}

/// Writes `n` in `base`.
pub fn write_in(base: Base, n: i64) -> (text: String)
    ensures
        text@ == writing(base, n),
{
    let mut text = String::new();
    push_signed_numeral(&mut text, n, base.radix());
    proof {
        assert(text@ =~= writing(base, n));
    }
    text
}

/// What field `shown` holds once a text that reads as `number` was typed
/// into another field.
fn derived(shown: Base, number: Option<i64>) -> (text: String)
    ensures
        text@ == match number {
            Some(n) => writing(shown, n),
            None => Seq::empty(),
        },
{
    match number {
        Some(n) => write_in(shown, n),
        None => String::new(),
    }
}

/// The four fields once `text` was typed into field `edited`.
pub fn convert_from(edited: Base, text: String) -> (fields: NumConverter)
    ensures
        fields@ == converted(edited, text@),
{
    let number = parse_in(edited, text.as_str());
    match edited {
        Base::Hex => NumConverter {
            hex: text,
            dec: derived(Base::Dec, number),
            oct: derived(Base::Oct, number),
            bin: derived(Base::Bin, number),
        },
        Base::Dec => NumConverter {
            hex: derived(Base::Hex, number),
            dec: text,
            oct: derived(Base::Oct, number),
            bin: derived(Base::Bin, number),
        },
        Base::Oct => NumConverter {
            hex: derived(Base::Hex, number),
            dec: derived(Base::Dec, number),
            oct: text,
            bin: derived(Base::Bin, number),
        },
        Base::Bin => NumConverter {
            hex: derived(Base::Hex, number),
            dec: derived(Base::Dec, number),
            oct: derived(Base::Oct, number),
            bin: text,
        },
    }
}

impl NumConverter {
    /// The widget before any input: four empty fields.
    pub fn create() -> (fresh: Self)
        ensures
            fresh@ == (NumView {
                hex: Seq::empty(),
                dec: Seq::empty(),
                oct: Seq::empty(),
                bin: Seq::empty(),
            }),
    {
        NumConverter {
            hex: String::new(),
            dec: String::new(),
            oct: String::new(),
            bin: String::new(),
        }
    }

    /// Takes one message and says whether the widget is to be drawn again,
    /// which it always is. The edited field keeps the typed text; the other
    /// three show the typed number in their bases, or nothing where the text
    /// reads as no number that 64 bits hold.
    pub fn update(&mut self, msg: NumConverterMsg) -> (render: bool)
        ensures
            render,
            final(self)@ == after(msg),
    {
        *self = match msg {
            NumConverterMsg::ConvertHex(value) => convert_from(Base::Hex, value),
            NumConverterMsg::ConvertDec(value) => convert_from(Base::Dec, value),
            NumConverterMsg::ConvertOct(value) => convert_from(Base::Oct, value),
            NumConverterMsg::ConvertBin(value) => convert_from(Base::Bin, value),
        };
        true
    }
}

/// A number written in a base reads back in that base as the same number.
pub proof fn writing_reads_back(base: Base, n: i64)
    ensures
        reading(base, writing(base, n)) == Some(n as int),
{
    lemma_signed_round_trip(n as int, radix_of(base), i64::MIN as int, i64::MAX as int);
}

/// After a text that reads as a number was typed into one field, every field
/// reads as that number in its own base.
pub proof fn fields_agree(shown: Base, edited: Base, text: Seq<char>)
    requires
        reading(edited, text) is Some,
    ensures
        reading(shown, field(shown, edited, text)) == reading(edited, text),
{
    lemma_reading_range(text, radix_of(edited) as int, i64::MIN as int, i64::MAX as int);
    if shown != edited {
        writing_reads_back(shown, reading(edited, text).unwrap() as i64);
    }
}

} // verus!
