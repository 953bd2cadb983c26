//! IPv4 addresses in dotted decimal, as one integer and in dotted binary.

use crate::numeral::{
    digit_char, digit_value, fits, fixed_numeral, is_numeral, lemma_fixed_numeral,
    lemma_numeral_leading, lemma_numeral_value, lemma_unsigned_round_trip,
    lemma_value_numeral, numeral, numeral_value, parse_digits, parse_unsigned,
    push_fixed_numeral, push_numeral, unsigned_reading,
};
use crate::text::{
    chars_of, contents, join, lemma_join_push, lemma_join_split, lemma_split_join, split,
    split_fields,
};
use vstd::prelude::*;

verus! {

/// The three fields of the address widget.
pub struct IpCalculator {
    pub ipv4: String,
    pub integer: String,
    pub bits: String,
}

/// An `IpCalculator` with its texts as sequences.
pub struct IpView {
    pub ipv4: Seq<char>,
    pub integer: Seq<char>,
    pub bits: Seq<char>,
}

impl View for IpCalculator {
    type V = IpView;

    open spec fn view(&self) -> IpView {
        IpView { ipv4: self.ipv4@, integer: self.integer@, bits: self.bits@ }
    }
}

/// What can happen to the address widget.
pub enum IpCalculatorMsg {
    /// The binary field was edited.
    ConvertBits(String),
    /// The integer field was edited.
    ConvertInteger(String),
    /// The dotted field was edited.
    ConvertIpv4(String),
    /// The host was asked for its own address and gave this answer.
    MyIP(String),
}

/// The address whose four octets, first to last, are `a`, `b`, `c` and `d`.
pub open spec fn address_of(a: int, b: int, c: int, d: int) -> int {
    ((a * 256 + b) * 256 + c) * 256 + d
}

/// Octet `i` of `address`, counted from the first, which is the most
/// significant.
pub open spec fn octet(address: u32, i: int) -> nat {
    if i == 0 {
        (address / 0x100_0000) as nat
    } else if i == 1 {
        (address / 0x1_0000 % 256) as nat
    } else if i == 2 {
        (address / 0x100 % 256) as nat
    } else {
        (address % 256) as nat
    }
}

/// `s` is an octet as a dotted address spells it: one to three decimal
/// digits, no zero in front of another digit, worth 255 at most.
pub open spec fn is_octet_text(s: Seq<char>) -> bool {
    &&& is_numeral(s, 10)
    &&& s.len() <= 3
    &&& (s.len() == 1 || s[0] != '0')
    &&& numeral_value(s, 10) <= 255
}

/// The address that a dotted text spells: four octets between dots.
pub open spec fn dotted_reading(s: Seq<char>) -> Option<u32> {
    let fields = split(s, '.');
    if fields.len() == 4 && is_octet_text(fields[0]) && is_octet_text(fields[1]) && is_octet_text(
        fields[2],
    ) && is_octet_text(fields[3]) {
        Some(
            address_of(
                numeral_value(fields[0], 10),
                numeral_value(fields[1], 10),
                numeral_value(fields[2], 10),
                numeral_value(fields[3], 10),
            ) as u32,
        )
    } else {
        None
    }
}

/// The address that a decimal integer spells: any that 32 bits can hold.
pub open spec fn integer_reading(s: Seq<char>) -> Option<u32> {
    match unsigned_reading(s, 10, 0xffff_ffff) {
        Some(v) => Some(v as u32),
        None => None,
    }
}

/// What field `i` of a binary text stands for: the byte that it reads as in
/// base 2, and zero where the text has no such field.
pub open spec fn bits_field(fields: Seq<Seq<char>>, i: int) -> Option<int> {
    if i < fields.len() {
        unsigned_reading(fields[i], 2, 255)
    } else {
        Some(0)
    }
}

/// The address that a binary text spells: one to four fields between dots,
/// each an unsigned byte in base 2, the first field the first octet; octets
/// for which no field is left are zero.
pub open spec fn bits_reading(s: Seq<char>) -> Option<u32> {
    let fields = split(s, '.');
    if fields.len() <= 4 {
        match (
            bits_field(fields, 0),
            bits_field(fields, 1),
            bits_field(fields, 2),
            bits_field(fields, 3),
        ) {
            (Some(a), Some(b), Some(c), Some(d)) => Some(address_of(a, b, c, d) as u32),
            _ => None,
        }
    } else {
        None
    }
}

/// The address in dotted decimal.
pub open spec fn dotted_text(address: u32) -> Seq<char> {
    join(
        seq![
            numeral(octet(address, 0), 10),
            numeral(octet(address, 1), 10),
            numeral(octet(address, 2), 10),
            numeral(octet(address, 3), 10),
        ],
        '.',
    )
}

/// The address as one decimal integer.
pub open spec fn integer_text(address: u32) -> Seq<char> {
    numeral(address as nat, 10)
}

/// The address in dotted binary, each octet in eight binary digits.
pub open spec fn bits_text(address: u32) -> Seq<char> {
    join(
        seq![
            fixed_numeral(octet(address, 0), 2, 8),
            fixed_numeral(octet(address, 1), 2, 8),
            fixed_numeral(octet(address, 2), 2, 8),
            fixed_numeral(octet(address, 3), 2, 8),
        ],
        '.',
    )
}

/// The fields after `msg`.
pub open spec fn after(state: IpView, msg: IpCalculatorMsg) -> IpView {
    match msg {
        IpCalculatorMsg::ConvertBits(value) => match bits_reading(value@) {
            Some(address) => IpView {
                ipv4: dotted_text(address),
                integer: integer_text(address),
                bits: value@,
            },
            None => IpView { bits: value@, ..state },
        },
        IpCalculatorMsg::ConvertInteger(value) => match integer_reading(value@) {
            Some(address) => IpView {
                ipv4: dotted_text(address),
                integer: value@,
                bits: bits_text(address),
            },
            None => IpView { integer: value@, ..state },
        },
        IpCalculatorMsg::ConvertIpv4(value) => match dotted_reading(value@) {
            Some(address) => IpView {
                ipv4: value@,
                integer: integer_text(address),
                bits: bits_text(address),
            },
            None => IpView { ipv4: value@, integer: Seq::empty(), bits: Seq::empty() },
        },
        IpCalculatorMsg::MyIP(answer) => match dotted_reading(answer@) {
            Some(address) => IpView {
                ipv4: answer@,
                integer: integer_text(address),
                bits: bits_text(address),
            },
            None => IpView { ipv4: Seq::empty(), integer: Seq::empty(), bits: Seq::empty() },
        },
    }
}

/// The four octets of `address`, the most significant first.
pub fn octets(address: u32) -> (parts: (u8, u8, u8, u8))
    ensures
        parts.0 == octet(address, 0),
        parts.1 == octet(address, 1),
        parts.2 == octet(address, 2),
        parts.3 == octet(address, 3),
        address_of(parts.0 as int, parts.1 as int, parts.2 as int, parts.3 as int) == address,
{
    (
        (address / 0x100_0000) as u8,
        (address / 0x1_0000 % 256) as u8,
        (address / 0x100 % 256) as u8,
        (address % 256) as u8,
    )
}

/// The address with these four octets, the most significant first.
pub fn from_octets(a: u8, b: u8, c: u8, d: u8) -> (address: u32)
    ensures
        address == address_of(a as int, b as int, c as int, d as int),
        octet(address, 0) == a,
        octet(address, 1) == b,
        octet(address, 2) == c,
        octet(address, 3) == d,
{
    ((a as u32 * 256 + b as u32) * 256 + c as u32) * 256 + d as u32
}

/// Reads one octet of a dotted address.
fn parse_octet(s: &[char]) -> (r: Option<u8>)
    ensures
        match r {
            Some(v) => is_octet_text(s@) && numeral_value(s@, 10) == v,
            None => !is_octet_text(s@),
        },
{
    if s.len() > 3 || (s.len() > 1 && s[0] == '0') {
        return None;
    }
    match parse_digits(s, 10, 255) {
        Some(v) => Some(v as u8),
        None => None,
    }
}

/// Reads one field of a binary address.
fn parse_byte_bits(s: &[char]) -> (r: Option<u8>)
    ensures
        match r {
            Some(v) => unsigned_reading(s@, 2, 255) == Some(v as int),
            None => unsigned_reading(s@, 2, 255) is None,
        },
{
    match parse_unsigned(s, 2, 255) {
        Some(v) => Some(v as u8),
        None => None,
    }
}

/// Reads an address in dotted decimal.
pub fn parse_dotted(text: &str) -> (address: Option<u32>)
    ensures
        address == dotted_reading(text@),
{
    let chars = chars_of(text);
    let fields = split_fields(chars.as_slice(), '.');
    if fields.len() != 4 {
        return None;
    }
    assert(contents(fields@)[0] == fields@[0]@);
    assert(contents(fields@)[1] == fields@[1]@);
    assert(contents(fields@)[2] == fields@[2]@);
    assert(contents(fields@)[3] == fields@[3]@);
    match (
        parse_octet(fields[0].as_slice()),
        parse_octet(fields[1].as_slice()),
        parse_octet(fields[2].as_slice()),
        parse_octet(fields[3].as_slice()),
    ) {
        (Some(a), Some(b), Some(c), Some(d)) => Some(from_octets(a, b, c, d)),
        _ => None,
    }
}

/// Reads an address as one decimal integer.
pub fn parse_integer(text: &str) -> (address: Option<u32>)
    ensures
        address == integer_reading(text@),
{
    let chars = chars_of(text);
    match parse_unsigned(chars.as_slice(), 10, 0xffff_ffff) {
        Some(v) => Some(v as u32),
        None => None,
    }
}

/// The address that the fields of a binary text spell.
fn address_from_bits(fields: &Vec<Vec<char>>) -> (address: Option<u32>)
    ensures
        address == if fields.len() <= 4 {
            match (
                bits_field(contents(fields@), 0),
                bits_field(contents(fields@), 1),
                bits_field(contents(fields@), 2),
                bits_field(contents(fields@), 3),
            ) {
                (Some(a), Some(b), Some(c), Some(d)) => Some(address_of(a, b, c, d) as u32),
                _ => None,
            }
        } else {
            None
        },
{
    if fields.len() > 4 {
        return None;
    }
    let mut parts: [u8; 4] = [0; 4];
    let mut i: usize = 0;
    while i < fields.len()
        invariant
            i <= fields.len() <= 4,
            forall|j: int| 0 <= j < i ==> bits_field(contents(fields@), j) == Some(parts[j] as int),
            forall|j: int| i <= j < 4 ==> parts[j] == 0,
        decreases fields.len() - i,
    {
        assert(contents(fields@)[i as int] == fields@[i as int]@);
        match parse_byte_bits(fields[i].as_slice()) {
            Some(v) => {
                parts[i] = v;
            },
            None => {
                return None;
            },
        }
        i += 1;
    }
    Some(from_octets(parts[0], parts[1], parts[2], parts[3]))
}

/// Reads an address in dotted binary.
pub fn parse_bits(text: &str) -> (address: Option<u32>)
    ensures
        address == bits_reading(text@),
{
    let chars = chars_of(text);
    let fields = split_fields(chars.as_slice(), '.');
    address_from_bits(&fields)
}

/// Writes an address in dotted decimal.
pub fn dotted_from(address: u32) -> (text: String)
    ensures
        text@ == dotted_text(address),
{
    let (a, b, c, d) = octets(address);
    let mut text = String::new();
    push_numeral(&mut text, a as u64, 10);
    text.push('.');
    push_numeral(&mut text, b as u64, 10);
    text.push('.');
    push_numeral(&mut text, c as u64, 10);
    text.push('.');
    push_numeral(&mut text, d as u64, 10);
    proof {
        let first = numeral(a as nat, 10);
        let second = numeral(b as nat, 10);
        let third = numeral(c as nat, 10);
        let fourth = numeral(d as nat, 10);
        lemma_join_four(first, second, third, fourth, '.');
        assert(text@ =~= dotted_text(address));
    }
    text
}

/// Writes an address as one decimal integer.
pub fn integer_from(address: u32) -> (text: String)
    ensures
        text@ == integer_text(address),
{
    let mut text = String::new();
    push_numeral(&mut text, address as u64, 10);
    proof {
        assert(text@ =~= integer_text(address));
    }
    text
}

/// Writes an address in dotted binary.
pub fn bits_from(address: u32) -> (text: String)
    ensures
        text@ == bits_text(address),
{
    let (a, b, c, d) = octets(address);
    let mut text = String::new();
    push_fixed_numeral(&mut text, a as u64, 2, 8);
    text.push('.');
    push_fixed_numeral(&mut text, b as u64, 2, 8);
    text.push('.');
    push_fixed_numeral(&mut text, c as u64, 2, 8);
    text.push('.');
    push_fixed_numeral(&mut text, d as u64, 2, 8);
    proof {
        let first = fixed_numeral(a as nat, 2, 8);
        let second = fixed_numeral(b as nat, 2, 8);
        let third = fixed_numeral(c as nat, 2, 8);
        let fourth = fixed_numeral(d as nat, 2, 8);
        lemma_join_four(first, second, third, fourth, '.');
        assert(text@ =~= bits_text(address));
    }
    text
}

/// Four fields joined are the fields in a row with a separator after each
/// but the last.
pub proof fn lemma_join_four(
    first: Seq<char>,
    second: Seq<char>,
    third: Seq<char>,
    fourth: Seq<char>,
    sep: char,
)
    ensures
        join(seq![first, second, third, fourth], sep) == first.push(sep) + second.push(sep)
            + third.push(sep) + fourth,
{
    lemma_join_push(seq![first], second, sep);
    lemma_join_push(seq![first, second], third, sep);
    lemma_join_push(seq![first, second, third], fourth, sep);
    assert(seq![first].push(second) =~= seq![first, second]);
    assert(seq![first, second].push(third) =~= seq![first, second, third]);
    assert(seq![first, second, third].push(fourth) =~= seq![first, second, third, fourth]);
    assert(join(seq![first, second, third, fourth], sep) =~= first.push(sep) + second.push(sep)
        + third.push(sep) + fourth);
}

impl IpCalculator {
    /// The widget before any input: three empty fields.
    pub fn create() -> (fresh: Self)
        ensures
            fresh@ == (IpView { ipv4: Seq::empty(), integer: Seq::empty(), bits: Seq::empty() }),
    {
        IpCalculator { ipv4: String::new(), integer: String::new(), bits: String::new() }
    }

    /// Empties all three fields.
    pub fn clear(&mut self)
        ensures
            final(self)@ == (IpView {
                ipv4: Seq::empty(),
                integer: Seq::empty(),
                bits: Seq::empty(),
            }),
    {
        self.ipv4 = String::new();
        self.integer = String::new();
        self.bits = String::new();
    }

    /// Takes one message and says whether the widget is to be drawn again,
    /// which it always is. An edit keeps the typed text in its own field
    /// and, where the text reads as an address, derives the other two fields
    /// from it. Where it does not, a binary or integer edit leaves them as
    /// they are and a dotted edit empties them. The host's answer fills all
    /// three fields where it reads as a dotted address and empties them where
    /// it does not.
    pub fn update(&mut self, msg: IpCalculatorMsg) -> (render: bool)
        ensures
            render,
            final(self)@ == after(old(self)@, msg),
    {
        match msg {
            IpCalculatorMsg::ConvertBits(value) => {
                if let Some(address) = parse_bits(value.as_str()) {
                    self.ipv4 = dotted_from(address);
                    self.integer = integer_from(address);
                }
                self.bits = value;
                true
            },
            IpCalculatorMsg::ConvertInteger(value) => {
                if let Some(address) = parse_integer(value.as_str()) {
                    self.ipv4 = dotted_from(address);
                    self.bits = bits_from(address);
                }
                self.integer = value;
                true
            },
            IpCalculatorMsg::ConvertIpv4(value) => {
                match parse_dotted(value.as_str()) {
                    Some(address) => {
                        self.integer = integer_from(address);
                        self.bits = bits_from(address);
                    },
                    None => {
                        self.clear();
                    },
                }
                self.ipv4 = value;
                true
            },
            IpCalculatorMsg::MyIP(answer) => {
                match parse_dotted(answer.as_str()) {
                    Some(address) => {
                        self.integer = integer_from(address);
                        self.bits = bits_from(address);
                        self.ipv4 = answer;
                    },
                    None => {
                        self.clear();
                    },
                }
                true
            },
        }
    }
}

/// The decimal numeral of a byte is an octet as a dotted address spells it,
/// holds no dot, and is worth the byte.
pub proof fn lemma_octet_numeral(v: u8)
    ensures
        is_octet_text(numeral(v as nat, 10)),
        numeral_value(numeral(v as nat, 10), 10) == v,
        !numeral(v as nat, 10).contains('.'),
{
    let text = numeral(v as nat, 10);
    lemma_numeral_value(v as nat, 10);
    if v >= 1 {
        lemma_numeral_leading(v as nat, 10);
    }
    reveal_with_fuel(numeral, 3);
    assert(text.len() <= 3);
    assert forall|j: int| 0 <= j < text.len() implies text[j] != '.' by {
        assert(digit_value(text[j]) < 10);
    }
}

/// The eight binary digits of a byte read as the byte, and hold no dot.
pub proof fn lemma_octet_bits(v: u8)
    ensures
        unsigned_reading(fixed_numeral(v as nat, 2, 8), 2, 255) == Some(v as int),
        !fixed_numeral(v as nat, 2, 8).contains('.'),
{
    let text = fixed_numeral(v as nat, 2, 8);
    reveal_with_fuel(fits, 9);
    lemma_fixed_numeral(v as nat, 2, 8);
    assert(digit_value(text[0]) < 2);
    assert forall|j: int| 0 <= j < text.len() implies text[j] != '.' by {
        assert(digit_value(text[j]) < 2);
    }
}

/// Four bytes make an address that 32 bits hold, and are its octets.
pub proof fn lemma_address_octets(a: int, b: int, c: int, d: int)
    requires
        0 <= a <= 255,
        0 <= b <= 255,
        0 <= c <= 255,
        0 <= d <= 255,
    ensures
        0 <= address_of(a, b, c, d) <= 0xffff_ffff,
        octet(address_of(a, b, c, d) as u32, 0) == a,
        octet(address_of(a, b, c, d) as u32, 1) == b,
        octet(address_of(a, b, c, d) as u32, 2) == c,
        octet(address_of(a, b, c, d) as u32, 3) == d,
{
}

/// A dotted text that reads as an address is the dotted text of that
/// address: no other spelling is read.
pub proof fn dotted_reading_is_canonical(s: Seq<char>)
    requires
        dotted_reading(s) is Some,
    ensures
        dotted_text(dotted_reading(s).unwrap()) == s,
{
    let fields = split(s, '.');
    let address = dotted_reading(s).unwrap();
    assert forall|i: int| 0 <= i < 4 implies numeral_value(#[trigger] fields[i], 10) >= 0
        && numeral(numeral_value(fields[i], 10) as nat, 10) == fields[i] by {
        let field = fields[i];
        assert(is_octet_text(field));
        assert forall|j: int| 0 <= j < field.len() implies digit_char(
            digit_value(#[trigger] field[j]),
        ) == field[j] by {
            assert(digit_value(field[j]) < 10);
        }
        lemma_value_numeral(field, 10);
    }
    lemma_address_octets(
        numeral_value(fields[0], 10),
        numeral_value(fields[1], 10),
        numeral_value(fields[2], 10),
        numeral_value(fields[3], 10),
    );
    assert(seq![
        numeral(octet(address, 0), 10),
        numeral(octet(address, 1), 10),
        numeral(octet(address, 2), 10),
        numeral(octet(address, 3), 10),
    ] =~= fields);
    lemma_join_split(s, '.');
}

/// The dotted text of an address reads as the address.
pub proof fn dotted_round_trip(address: u32)
    ensures
        dotted_reading(dotted_text(address)) == Some(address),
{
    let a = octet(address, 0) as u8;
    let b = octet(address, 1) as u8;
    let c = octet(address, 2) as u8;
    let d = octet(address, 3) as u8;
    assert(address_of(a as int, b as int, c as int, d as int) == address);
    lemma_octet_numeral(a);
    lemma_octet_numeral(b);
    lemma_octet_numeral(c);
    lemma_octet_numeral(d);
    let fields = seq![
        numeral(a as nat, 10),
        numeral(b as nat, 10),
        numeral(c as nat, 10),
        numeral(d as nat, 10),
    ];
    lemma_split_join(fields, '.');
    assert(split(dotted_text(address), '.') == fields);
}

/// The integer text of an address reads as the address.
pub proof fn integer_round_trip(address: u32)
    ensures
        integer_reading(integer_text(address)) == Some(address),
{
    lemma_unsigned_round_trip(address as nat, 10, 0xffff_ffff);
}

/// The binary text of an address reads as the address.
pub proof fn bits_round_trip(address: u32)
    ensures
        bits_reading(bits_text(address)) == Some(address),
{
    let a = octet(address, 0) as u8;
    let b = octet(address, 1) as u8;
    let c = octet(address, 2) as u8;
    let d = octet(address, 3) as u8;
    assert(address_of(a as int, b as int, c as int, d as int) == address);
    lemma_octet_bits(a);
    lemma_octet_bits(b);
    lemma_octet_bits(c);
    lemma_octet_bits(d);
    let fields = seq![
        fixed_numeral(a as nat, 2, 8),
        fixed_numeral(b as nat, 2, 8),
        fixed_numeral(c as nat, 2, 8),
        fixed_numeral(d as nat, 2, 8),
    ];
    lemma_split_join(fields, '.');
    assert(split(bits_text(address), '.') == fields);
}

/// A dotted address survives the way through the integer field and the way
/// through the binary field: the text derived from it reads as the same
/// address, whose dotted text is the text that was started from.
pub proof fn dotted_survives_conversion(s: Seq<char>)
    requires
        dotted_reading(s) is Some,
    ensures
        ({
            let address = dotted_reading(s).unwrap();
            &&& integer_reading(integer_text(address)) == Some(address)
            &&& bits_reading(bits_text(address)) == Some(address)
            &&& dotted_text(address) == s
        }),
{
    integer_round_trip(dotted_reading(s).unwrap());
    bits_round_trip(dotted_reading(s).unwrap());
    dotted_reading_is_canonical(s);
}

/// The address that the text of `msg` reads as, in the way of the field that
/// the message is about.
pub open spec fn address_in(msg: IpCalculatorMsg) -> Option<u32> {
    match msg {
        IpCalculatorMsg::ConvertBits(value) => bits_reading(value@),
        IpCalculatorMsg::ConvertInteger(value) => integer_reading(value@),
        IpCalculatorMsg::ConvertIpv4(value) => dotted_reading(value@),
        IpCalculatorMsg::MyIP(answer) => dotted_reading(answer@),
    }
}

/// After a message whose text reads as an address, all three fields read as
/// that address, whatever they held before.
pub proof fn fields_agree(state: IpView, msg: IpCalculatorMsg)
    requires
        address_in(msg) is Some,
    ensures
        dotted_reading(after(state, msg).ipv4) == address_in(msg),
        integer_reading(after(state, msg).integer) == address_in(msg),
        bits_reading(after(state, msg).bits) == address_in(msg),
{
    let address = address_in(msg).unwrap();
    dotted_round_trip(address);
    integer_round_trip(address);
    bits_round_trip(address);
}

} // verus!
