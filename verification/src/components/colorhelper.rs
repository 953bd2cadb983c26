//! Colours as hexadecimal text, as decimal channels and as CMYK.

use crate::numeral::{
    digit_value, fits, fixed_numeral, is_numeral, lemma_fixed_numeral, lemma_numeral_value,
    numeral, numeral_value, parse_digits, parse_unsigned, push_fixed_numeral, push_numeral,
    unsigned_reading,
};
use crate::text::{
    chars_of, contents, join, lemma_join_push, lemma_split_join, split, split_fields,
};
use vstd::prelude::*;
use vstd::slice::slice_subrange;

verus! {

/// What the CMYK field shows.
pub enum Cmyk {
    /// A text as it was typed.
    Text(String),
    /// The CMYK components of these red, green and blue channels.
    Of(u8, u8, u8),
}

/// A `Cmyk` with its text as a sequence.
pub enum CmykView {
    Text(Seq<char>),
    Of(u8, u8, u8),
}

impl View for Cmyk {
    type V = CmykView;

    open spec fn view(&self) -> CmykView {
        match *self {
            Cmyk::Text(text) => CmykView::Text(text@),
            Cmyk::Of(r, g, b) => CmykView::Of(r, g, b),
        }
    }
}

/// The three fields of the colour widget.
pub struct ColorHelper {
    pub hex: String,
    pub rgb: String,
    pub cmyk: Cmyk,
}

/// A `ColorHelper` with its texts as sequences.
pub struct ColorView {
    pub hex: Seq<char>,
    pub rgb: Seq<char>,
    pub cmyk: CmykView,
}

impl View for ColorHelper {
    type V = ColorView;

    open spec fn view(&self) -> ColorView {
        ColorView { hex: self.hex@, rgb: self.rgb@, cmyk: self.cmyk@ }
    }
}

/// What can happen to the colour widget.
pub enum ColorHelperMsg {
    /// The hex field was edited.
    ConvertHex(String),
    /// The RGB field was edited.
    ConvertRGB(String),
    /// The CMYK field was edited; with the text come the channels that its
    /// four components stand for, if it holds four numbers.
    ConvertCMYK(String, Option<(u8, u8, u8)>),
    Darker,
    Lighter,
    Complement,
    Random,
}

/// The channels that a hexadecimal text spells: exactly six hexadecimal
/// digits in either case, two for each channel.
pub open spec fn hex_reading(s: Seq<char>) -> Option<(u8, u8, u8)> {
    if s.len() == 6 && is_numeral(s, 16) {
        Some(
            (
                numeral_value(s.subrange(0, 2), 16) as u8,
                numeral_value(s.subrange(2, 4), 16) as u8,
                numeral_value(s.subrange(4, 6), 16) as u8,
            ),
        )
    } else {
        None
    }
}

/// The channels that three decimal fields between commas spell, each read as
/// an unsigned byte.
pub open spec fn rgb_reading(s: Seq<char>) -> Option<(u8, u8, u8)> {
    let fields = split(s, ',');
    if fields.len() == 3 {
        match (
            unsigned_reading(fields[0], 10, 255),
            unsigned_reading(fields[1], 10, 255),
            unsigned_reading(fields[2], 10, 255),
        ) {
            (Some(r), Some(g), Some(b)) => Some((r as u8, g as u8, b as u8)),
            _ => None,
        }
    } else {
        None
    }
}

/// The channels as six upper-case hexadecimal digits.
pub open spec fn hex_text(r: u8, g: u8, b: u8) -> Seq<char> {
    fixed_numeral(r as nat, 16, 2) + fixed_numeral(g as nat, 16, 2) + fixed_numeral(
        b as nat,
        16,
        2,
    )
}

/// The channels in decimal, with commas between them.
pub open spec fn rgb_text(r: u8, g: u8, b: u8) -> Seq<char> {
    join(seq![numeral(r as nat, 10), numeral(g as nat, 10), numeral(b as nat, 10)], ',')
}

/// A channel a quarter darker, rounded down.
pub open spec fn darker(v: u8) -> u8 {
    (3 * v / 4) as u8
}

/// A channel a quarter lighter, rounded down and held at 255.
pub open spec fn lighter(v: u8) -> u8 {
    if 5 * v / 4 > 255 {
        255u8
    } else {
        (5 * v / 4) as u8
    }
}

/// The fields when all three show the colour `(r, g, b)`.
pub open spec fn showing(r: u8, g: u8, b: u8) -> ColorView {
    ColorView { hex: hex_text(r, g, b), rgb: rgb_text(r, g, b), cmyk: CmykView::Of(r, g, b) }
}

/// The fields after `msg`, where `drawn` holds the three random bytes that
/// were drawn for it, if any were: only `Random` looks at them.
pub open spec fn after(
    state: ColorView,
    msg: ColorHelperMsg,
    drawn: Option<(u8, u8, u8)>,
) -> ColorView {
    match msg {
        ColorHelperMsg::ConvertHex(value) => match hex_reading(value@) {
            Some((r, g, b)) => ColorView {
                hex: value@,
                rgb: rgb_text(r, g, b),
                cmyk: CmykView::Of(r, g, b),
            },
            None => ColorView { hex: value@, ..state },
        },
        ColorHelperMsg::ConvertRGB(value) => match rgb_reading(value@) {
            Some((r, g, b)) => ColorView {
                hex: hex_text(r, g, b),
                rgb: value@,
                cmyk: CmykView::Of(r, g, b),
            },
            None => ColorView { rgb: value@, ..state },
        },
        ColorHelperMsg::ConvertCMYK(value, channels) => match channels {
            Some((r, g, b)) => ColorView {
                hex: hex_text(r, g, b),
                rgb: rgb_text(r, g, b),
                cmyk: CmykView::Text(value@),
            },
            None => ColorView { cmyk: CmykView::Text(value@), ..state },
        },
        ColorHelperMsg::Darker => match hex_reading(state.hex) {
            Some((r, g, b)) => showing(darker(r), darker(g), darker(b)),
            None => state,
        },
        ColorHelperMsg::Lighter => match hex_reading(state.hex) {
            Some((r, g, b)) => if r == 0 {
                showing(4, 4, 4)
            } else {
                showing(lighter(r), lighter(g), lighter(b))
            },
            None => state,
        },
        ColorHelperMsg::Complement => match hex_reading(state.hex) {
            Some((r, g, b)) => showing((255 - r) as u8, (255 - g) as u8, (255 - b) as u8),
            None => state,
        },
        ColorHelperMsg::Random => match drawn {
            Some((r, g, b)) => showing(r, g, b),
            None => state,
        },
    }
}

/// Reads one decimal channel.
fn parse_channel(s: &[char]) -> (r: Option<u8>)
    ensures
        match r {
            Some(v) => unsigned_reading(s@, 10, 255) == Some(v as int),
            None => unsigned_reading(s@, 10, 255) is None,
        },
{
    match parse_unsigned(s, 10, 255) {
        Some(v) => Some(v as u8),
        None => None,
    }
}

/// Reads two hexadecimal digits.
fn parse_pair(s: &[char]) -> (r: Option<u8>)
    requires
        s@.len() == 2,
    ensures
        match r {
            Some(v) => is_numeral(s@, 16) && numeral_value(s@, 16) == v,
            None => !is_numeral(s@, 16),
        },
{
    proof {
        reveal_with_fuel(numeral_value, 3);
    }
    match parse_digits(s, 16, 255) {
        Some(v) => Some(v as u8),
        None => None,
    }
}

/// Reads a colour from its hexadecimal text.
pub fn parse_hex(text: &str) -> (channels: Option<(u8, u8, u8)>)
    ensures
        channels == hex_reading(text@),
{
    let chars = chars_of(text);
    if chars.len() != 6 {
        return None;
    }
    let s = chars.as_slice();
    let red = slice_subrange(s, 0, 2);
    let green = slice_subrange(s, 2, 4);
    let blue = slice_subrange(s, 4, 6);
    proof {
        if is_numeral(red@, 16) && is_numeral(green@, 16) && is_numeral(blue@, 16) {
            assert forall|i: int| 0 <= i < 6 implies digit_value(#[trigger] s@[i]) < 16 by {
                if i < 2 {
                    assert(s@[i] == red@[i]);
                } else if i < 4 {
                    assert(s@[i] == green@[i - 2]);
                } else {
                    assert(s@[i] == blue@[i - 4]);
                }
            }
        }
        if is_numeral(s@, 16) {
            assert forall|i: int| 0 <= i < 2 implies digit_value(#[trigger] red@[i]) < 16 by {
                assert(red@[i] == s@[i]);
            }
            assert forall|i: int| 0 <= i < 2 implies digit_value(#[trigger] green@[i]) < 16 by {
                assert(green@[i] == s@[i + 2]);
            }
            assert forall|i: int| 0 <= i < 2 implies digit_value(#[trigger] blue@[i]) < 16 by {
                assert(blue@[i] == s@[i + 4]);
            }
        }
    }
    match (parse_pair(red), parse_pair(green), parse_pair(blue)) {
        (Some(r), Some(g), Some(b)) => Some((r, g, b)),
        _ => None,
    }
}

/// Reads a colour from its decimal channels between commas.
pub fn parse_rgb(text: &str) -> (channels: Option<(u8, u8, u8)>)
    ensures
        channels == rgb_reading(text@),
{
    let chars = chars_of(text);
    let fields = split_fields(chars.as_slice(), ',');
    if fields.len() != 3 {
        return None;
    }
    assert(contents(fields@)[0] == fields@[0]@);
    assert(contents(fields@)[1] == fields@[1]@);
    assert(contents(fields@)[2] == fields@[2]@);
    match (
        parse_channel(fields[0].as_slice()),
        parse_channel(fields[1].as_slice()),
        parse_channel(fields[2].as_slice()),
    ) {
        (Some(r), Some(g), Some(b)) => Some((r, g, b)),
        _ => None,
    }
}

/// Writes a colour as six upper-case hexadecimal digits.
pub fn hex_from(r: u8, g: u8, b: u8) -> (text: String)
    ensures
        text@ == hex_text(r, g, b),
{
    let mut text = String::new();
    push_fixed_numeral(&mut text, r as u64, 16, 2);
    push_fixed_numeral(&mut text, g as u64, 16, 2);
    push_fixed_numeral(&mut text, b as u64, 16, 2);
    proof {
        assert(text@ =~= hex_text(r, g, b));
    }
    text
}

/// Writes a colour as decimal channels between commas.
pub fn rgb_from(r: u8, g: u8, b: u8) -> (text: String)
    ensures
        text@ == rgb_text(r, g, b),
{
    let mut text = String::new();
    push_numeral(&mut text, r as u64, 10);
    text.push(',');
    push_numeral(&mut text, g as u64, 10);
    text.push(',');
    push_numeral(&mut text, b as u64, 10);
    proof {
        let red = numeral(r as nat, 10);
        let green = numeral(g as nat, 10);
        let blue = numeral(b as nat, 10);
        lemma_join_push(seq![red], green, ',');
        lemma_join_push(seq![red, green], blue, ',');
        assert(seq![red].push(green) =~= seq![red, green]);
        assert(seq![red, green].push(blue) =~= seq![red, green, blue]);
        assert(text@ =~= rgb_text(r, g, b));
    }
    text
}

/// A channel a quarter darker.
pub fn darken(v: u8) -> (d: u8)
    ensures
        d == darker(v),
{
    (v as u16 * 3 / 4) as u8
}

/// A channel a quarter lighter, held at 255.
pub fn lighten(v: u8) -> (l: u8)
    ensures
        l == lighter(v),
{
    let raised: u16 = v as u16 * 5 / 4;
    if raised > 255 {
        255
    } else {
        raised as u8
    }
}

/// The error of the system's source of random bytes.
#[verifier::external_type_specification]
#[verifier::external_body]
pub struct ExEntropyError(getrandom::Error);

/// Three bytes that `getrandom::getrandom` drew from the system's source of
/// random bytes, or its error. Nothing is claimed of the bytes.
#[verifier::external_body]
fn random_channels() -> (drawn: Result<(u8, u8, u8), getrandom::Error>) {
    let mut buf: [u8; 3] = [0u8; 3];
    match getrandom::getrandom(&mut buf) {
        Ok(()) => Ok((buf[0], buf[1], buf[2])),
        Err(e) => Err(e),
    }
}

impl ColorHelper {
    /// The widget before any input: three empty fields.
    pub fn create() -> (fresh: Self)
        ensures
            fresh@ == (ColorView {
                hex: Seq::empty(),
                rgb: Seq::empty(),
                cmyk: CmykView::Text(Seq::empty()),
            }),
    {
        ColorHelper { hex: String::new(), rgb: String::new(), cmyk: Cmyk::Text(String::new()) }
    }

    /// Makes all three fields show the colour `(r, g, b)`.
    pub fn show(&mut self, r: u8, g: u8, b: u8)
        ensures
            final(self)@ == showing(r, g, b),
    {
        self.hex = hex_from(r, g, b);
        self.rgb = rgb_from(r, g, b);
        self.cmyk = Cmyk::Of(r, g, b);
    }

    /// Takes one message together with the random bytes that were drawn for
    /// it, if any were, and says whether the widget is to be drawn again,
    /// which it always is. An edit keeps the typed text in its own field and,
    /// where the text reads as a colour, derives the other two fields from
    /// it; where it does not, they stay. The three shades start from the hex
    /// field and do nothing unless it reads as a colour. `Random` shows the
    /// colour of the bytes drawn, and changes nothing where none were.
    pub fn advance(&mut self, msg: ColorHelperMsg, drawn: Option<(u8, u8, u8)>) -> (render: bool)
        ensures
            render,
            final(self)@ == after(old(self)@, msg, drawn),
    {
        match msg {
            ColorHelperMsg::ConvertHex(value) => {
                if let Some((r, g, b)) = parse_hex(value.as_str()) {
                    self.rgb = rgb_from(r, g, b);
                    self.cmyk = Cmyk::Of(r, g, b);
                }
                self.hex = value;
            },
            ColorHelperMsg::ConvertRGB(value) => {
                if let Some((r, g, b)) = parse_rgb(value.as_str()) {
                    self.hex = hex_from(r, g, b);
                    self.cmyk = Cmyk::Of(r, g, b);
                }
                self.rgb = value;
            },
            ColorHelperMsg::ConvertCMYK(value, channels) => {
                if let Some((r, g, b)) = channels {
                    self.hex = hex_from(r, g, b);
                    self.rgb = rgb_from(r, g, b);
                }
                self.cmyk = Cmyk::Text(value);
            },
            ColorHelperMsg::Darker => {
                if let Some((r, g, b)) = parse_hex(self.hex.as_str()) {
                    self.show(darken(r), darken(g), darken(b));
                }
            },
            ColorHelperMsg::Lighter => {
                if let Some((r, g, b)) = parse_hex(self.hex.as_str()) {
                    if r == 0 {
                        self.show(4, 4, 4);
                    } else {
                        self.show(lighten(r), lighten(g), lighten(b));
                    }
                }
            },
            ColorHelperMsg::Complement => {
                if let Some((r, g, b)) = parse_hex(self.hex.as_str()) {
                    self.show(255 - r, 255 - g, 255 - b);
                }
            },
            ColorHelperMsg::Random => {
                if let Some((r, g, b)) = drawn {
                    self.show(r, g, b);
                }
            },
        }
        true
    }

    /// Takes one message and says whether the widget is to be drawn again,
    /// which it always is. For `Random` three bytes are drawn from the
    /// system's source of random bytes, and the message is handed on with
    /// them, or without where the source fails; every other message is
    /// handed on as it is.
    pub fn update(&mut self, msg: ColorHelperMsg) -> (render: bool)
        ensures
            render,
            exists|drawn: Option<(u8, u8, u8)>|
                final(self)@ == #[trigger] after(old(self)@, msg, drawn),
            !(msg is Random) ==> final(self)@ == after(old(self)@, msg, None),
    {
        let drawn = match &msg {
            ColorHelperMsg::Random => match random_channels() {
                Ok(channels) => Some(channels),
                Err(_) => None,
            },
            _ => None,
        };
        self.advance(msg, drawn)
    }
}

/// A colour written in hexadecimal reads back as the same colour.
pub proof fn hex_round_trip(r: u8, g: u8, b: u8)
    ensures
        hex_reading(hex_text(r, g, b)) == Some((r, g, b)),
{
    let red = fixed_numeral(r as nat, 16, 2);
    let green = fixed_numeral(g as nat, 16, 2);
    let blue = fixed_numeral(b as nat, 16, 2);
    reveal_with_fuel(fits, 3);
    lemma_fixed_numeral(r as nat, 16, 2);
    lemma_fixed_numeral(g as nat, 16, 2);
    lemma_fixed_numeral(b as nat, 16, 2);
    let text = hex_text(r, g, b);
    assert(text.subrange(0, 2) =~= red);
    assert(text.subrange(2, 4) =~= green);
    assert(text.subrange(4, 6) =~= blue);
    assert forall|i: int| 0 <= i < 6 implies digit_value(#[trigger] text[i]) < 16 by {
        if i < 2 {
            assert(text[i] == red[i]);
        } else if i < 4 {
            assert(text[i] == green[i - 2]);
        } else {
            assert(text[i] == blue[i - 4]);
        }
    }
}

/// A colour written as decimal channels reads back as the same colour.
pub proof fn rgb_round_trip(r: u8, g: u8, b: u8)
    ensures
        rgb_reading(rgb_text(r, g, b)) == Some((r, g, b)),
{
    let fields = seq![numeral(r as nat, 10), numeral(g as nat, 10), numeral(b as nat, 10)];
    lemma_numeral_value(r as nat, 10);
    lemma_numeral_value(g as nat, 10);
    lemma_numeral_value(b as nat, 10);
    assert forall|i: int| 0 <= i < fields.len() implies !(#[trigger] fields[i]).contains(',') by {
        let field = fields[i];
        assert forall|j: int| 0 <= j < field.len() implies field[j] != ',' by {
            assert(digit_value(field[j]) < 10);
        }
    }
    lemma_split_join(fields, ',');
}

/// The colour that `msg` brings to fields in `state`, if it brings one: the
/// colour that an edit reads as, the shade of the colour in the hex field,
/// or the colour of the bytes drawn.
pub open spec fn colour_in(
    state: ColorView,
    msg: ColorHelperMsg,
    drawn: Option<(u8, u8, u8)>,
) -> Option<(u8, u8, u8)> {
    match msg {
        ColorHelperMsg::ConvertHex(value) => hex_reading(value@),
        ColorHelperMsg::ConvertRGB(value) => rgb_reading(value@),
        ColorHelperMsg::ConvertCMYK(value, channels) => channels,
        ColorHelperMsg::Darker => match hex_reading(state.hex) {
            Some((r, g, b)) => Some((darker(r), darker(g), darker(b))),
            None => None,
        },
        ColorHelperMsg::Lighter => match hex_reading(state.hex) {
            Some((r, g, b)) => if r == 0 {
                Some((4u8, 4u8, 4u8))
            } else {
                Some((lighter(r), lighter(g), lighter(b)))
            },
            None => None,
        },
        ColorHelperMsg::Complement => match hex_reading(state.hex) {
            Some((r, g, b)) => Some(((255 - r) as u8, (255 - g) as u8, (255 - b) as u8)),
            None => None,
        },
        ColorHelperMsg::Random => drawn,
    }
}

/// After a message that brings a colour, the hex field and the RGB field
/// both read as that colour, whatever they held before.
pub proof fn fields_agree(state: ColorView, msg: ColorHelperMsg, drawn: Option<(u8, u8, u8)>)
    requires
        colour_in(state, msg, drawn) is Some,
    ensures
        hex_reading(after(state, msg, drawn).hex) == colour_in(state, msg, drawn),
        rgb_reading(after(state, msg, drawn).rgb) == colour_in(state, msg, drawn),
{
    let (r, g, b) = colour_in(state, msg, drawn).unwrap();
    hex_round_trip(r, g, b);
    rgb_round_trip(r, g, b);
}

} // verus!
