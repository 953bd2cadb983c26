//! File permissions as nine bits, as three octal digits and as `rwx` text.

use crate::numeral::{digit_char, digit_of, digit_value, is_numeral, lemma_digit_char};
use crate::text::chars_of;
use vstd::prelude::*;

verus! {

/// The state of the permission widget: who may read, write and execute, and
/// the three fields that spell it.
pub struct ChmodCalculator {
    pub owner_read: bool,
    pub owner_write: bool,
    pub owner_execute: bool,
    pub group_read: bool,
    pub group_write: bool,
    pub group_execute: bool,
    pub public_read: bool,
    pub public_write: bool,
    pub public_execute: bool,
    pub octal: String,
    pub text: String,
    pub command: String,
}

/// A `ChmodCalculator` with its nine bits in a row (owner, group, public;
/// read, write, execute for each) and its texts as sequences.
pub struct ChmodView {
    pub bits: Seq<bool>,
    pub octal: Seq<char>,
    pub text: Seq<char>,
    pub command: Seq<char>,
}

impl View for ChmodCalculator {
    type V = ChmodView;

    open spec fn view(&self) -> ChmodView {
        ChmodView {
            bits: seq![
                self.owner_read,
                self.owner_write,
                self.owner_execute,
                self.group_read,
                self.group_write,
                self.group_execute,
                self.public_read,
                self.public_write,
                self.public_execute,
            ],
            octal: self.octal@,
            text: self.text@,
            command: self.command@,
        }
    }
}

/// What can happen to the permission widget: a box was ticked or cleared, or
/// the octal or the text field was edited.
pub enum ChmodCalculatorMsg {
    ChangeOwnerRead,
    ChangeOwnerWrite,
    ChangeOwnerExecute,
    ChangeGroupRead,
    ChangeGroupWrite,
    ChangeGroupExecute,
    ChangePublicRead,
    ChangePublicWrite,
    ChangePublicExecute,
    ChangeOctal(String),
    ChangeText(String),
}

impl Clone for ChmodCalculatorMsg {
    fn clone(&self) -> (copy: Self)
        ensures
            copy == *self,
    {
        match self {
            ChmodCalculatorMsg::ChangeOwnerRead => ChmodCalculatorMsg::ChangeOwnerRead,
            ChmodCalculatorMsg::ChangeOwnerWrite => ChmodCalculatorMsg::ChangeOwnerWrite,
            ChmodCalculatorMsg::ChangeOwnerExecute => ChmodCalculatorMsg::ChangeOwnerExecute,
            ChmodCalculatorMsg::ChangeGroupRead => ChmodCalculatorMsg::ChangeGroupRead,
            ChmodCalculatorMsg::ChangeGroupWrite => ChmodCalculatorMsg::ChangeGroupWrite,
            ChmodCalculatorMsg::ChangeGroupExecute => ChmodCalculatorMsg::ChangeGroupExecute,
            ChmodCalculatorMsg::ChangePublicRead => ChmodCalculatorMsg::ChangePublicRead,
            ChmodCalculatorMsg::ChangePublicWrite => ChmodCalculatorMsg::ChangePublicWrite,
            ChmodCalculatorMsg::ChangePublicExecute => ChmodCalculatorMsg::ChangePublicExecute,
            ChmodCalculatorMsg::ChangeOctal(value) => ChmodCalculatorMsg::ChangeOctal(
                value.clone(),
            ),
            ChmodCalculatorMsg::ChangeText(value) => ChmodCalculatorMsg::ChangeText(value.clone()),
        }
    }
}

/// The letter that stands for bit `i` when it is set: `r`, `w` and `x` in
/// turn.
pub open spec fn letter(i: int) -> char {
    if i % 3 == 0 {
        'r'
    } else if i % 3 == 1 {
        'w'
    } else {
        'x'
    }
}

/// `t` spells nine bits: nine characters, each the letter of its place or a
/// dash.
pub open spec fn valid_text(t: Seq<char>) -> bool {
    &&& t.len() == 9
    &&& forall|i: int| 0 <= i < 9 ==> #[trigger] t[i] == letter(i) || t[i] == '-'
}

/// The nine bits as text: the letter of its place for a set bit, a dash for
/// a clear one.
pub open spec fn text_of(bits: Seq<bool>) -> Seq<char> {
    Seq::new(
        9,
        |i: int|
            if bits[i] {
                letter(i)
            } else {
                '-'
            },
    )
}

/// The bits that a text spells: bit `i` is set where character `i` is there
/// and is the letter of its place.
pub open spec fn bits_of_text(t: Seq<char>) -> Seq<bool> {
    Seq::new(9, |i: int| i < t.len() && t[i] == letter(i))
}

/// The octal digit of triad `k`: 4 for read, 2 for write, 1 for execute.
pub open spec fn triad_digit(bits: Seq<bool>, k: int) -> int {
    (if bits[3 * k] {
        4int
    } else {
        0int
    }) + (if bits[3 * k + 1] {
        2int
    } else {
        0int
    }) + (if bits[3 * k + 2] {
        1int
    } else {
        0int
    })
}

/// The nine bits as three octal digits: owner, group, public.
pub open spec fn octal_of(bits: Seq<bool>) -> Seq<char> {
    Seq::new(3, |k: int| digit_char(triad_digit(bits, k)))
}

/// Whether the digit `d` has the bit of place `i` set: read is worth 4,
/// write 2 and execute 1.
pub open spec fn digit_grants(d: int, i: int) -> bool {
    if i % 3 == 0 {
        d / 4 % 2 == 1
    } else if i % 3 == 1 {
        d / 2 % 2 == 1
    } else {
        d % 2 == 1
    }
}

/// `o` is accepted in the octal field: exactly three octal digits.
pub open spec fn valid_octal(o: Seq<char>) -> bool {
    o.len() == 3 && is_numeral(o, 8)
}

/// The bits that three octal digits spell: the first digit for the owner,
/// the second for the group, the third for the public.
pub open spec fn bits_of_octal(o: Seq<char>) -> Seq<bool> {
    Seq::new(9, |i: int| digit_grants(digit_value(o[i / 3]), i))
}

/// The command that applies the permissions `octal`.
pub open spec fn command_of(octal: Seq<char>) -> Seq<char> {
    seq!['c', 'h', 'm', 'o', 'd', ' '] + octal
}

/// The bit that `msg` flips, if it flips one.
pub open spec fn toggled(msg: ChmodCalculatorMsg) -> Option<int> {
    match msg {
        ChmodCalculatorMsg::ChangeOwnerRead => Some(0),
        ChmodCalculatorMsg::ChangeOwnerWrite => Some(1),
        ChmodCalculatorMsg::ChangeOwnerExecute => Some(2),
        ChmodCalculatorMsg::ChangeGroupRead => Some(3),
        ChmodCalculatorMsg::ChangeGroupWrite => Some(4),
        ChmodCalculatorMsg::ChangeGroupExecute => Some(5),
        ChmodCalculatorMsg::ChangePublicRead => Some(6),
        ChmodCalculatorMsg::ChangePublicWrite => Some(7),
        ChmodCalculatorMsg::ChangePublicExecute => Some(8),
        _ => None,
    }
}

/// The state in which all fields spell `bits`.
pub open spec fn spelling(bits: Seq<bool>) -> ChmodView {
    ChmodView {
        bits,
        octal: octal_of(bits),
        text: text_of(bits),
        command: command_of(octal_of(bits)),
    }
}

/// The state after `msg`.
pub open spec fn after(state: ChmodView, msg: ChmodCalculatorMsg) -> ChmodView {
    match msg {
        ChmodCalculatorMsg::ChangeOctal(value) => if valid_octal(value@) {
            let bits = bits_of_octal(value@);
            ChmodView { bits, octal: value@, text: text_of(bits), command: command_of(value@) }
        } else {
            ChmodView { octal: value@, ..state }
        },
        ChmodCalculatorMsg::ChangeText(value) => if valid_text(value@) {
            let bits = bits_of_text(value@);
            ChmodView {
                bits,
                octal: octal_of(bits),
                text: value@,
                command: command_of(octal_of(bits)),
            }
        } else {
            ChmodView { text: value@, ..state }
        },
        _ => {
            let i = toggled(msg).unwrap();
            spelling(state.bits.update(i, !state.bits[i]))
        },
    }
}

/// Whether `text` is three octal digits.
pub fn is_valid_octal(text: &String) -> (valid: bool)
    ensures
        valid == valid_octal(text@),
{
    let chars = chars_of(text.as_str());
    chars.len() == 3 && digit_of(chars[0]) < 8 && digit_of(chars[1]) < 8 && digit_of(chars[2]) < 8
}

/// Whether `text` spells nine bits.
pub fn is_valid_text(text: &String) -> (valid: bool)
    ensures
        valid == valid_text(text@),
{
    let chars = chars_of(text.as_str());
    if chars.len() != 9 {
        return false;
    }
    let allowed: [char; 3] = ['r', 'w', 'x'];
    let mut i: usize = 0;
    while i < 9
        invariant
            i <= 9,
            chars.len() == 9,
            chars@ == text@,
            allowed@ == seq!['r', 'w', 'x'],
            forall|j: int| 0 <= j < i ==> #[trigger] chars@[j] == letter(j) || chars@[j] == '-',
        decreases 9 - i,
    {
        let ch = chars[i];
        if ch != allowed[i % 3] && ch != '-' {
            return false;
        }
        i += 1;
    }
    true
}

/// The letter for a set bit, a dash for a clear one.
fn mark(set: bool, granted: char) -> (c: char)
    ensures
        c == if set {
            granted
        } else {
            '-'
        },
{
    if set {
        granted
    } else {
        '-'
    }
}

/// The octal digit of one triad.
fn triad_char(read: bool, write: bool, execute: bool) -> (c: char)
    ensures
        c == digit_char(
            (if read {
                4int
            } else {
                0int
            }) + (if write {
                2int
            } else {
                0int
            }) + (if execute {
                1int
            } else {
                0int
            }),
        ),
{
    let mut digit: u8 = 0;
    if read {
        digit = digit + 4;
    }
    if write {
        digit = digit + 2;
    }
    if execute {
        digit = digit + 1;
    }
    ('0' as u8 + digit) as char
}

/// The three octal digits of nine bits.
fn octal_from(bits: &[bool; 9]) -> (octal: String)
    ensures
        octal@ == octal_of(bits@),
{
    let mut octal = String::new();
    octal.push(triad_char(bits[0], bits[1], bits[2]));
    octal.push(triad_char(bits[3], bits[4], bits[5]));
    octal.push(triad_char(bits[6], bits[7], bits[8]));
    proof {
        assert(octal@ =~= octal_of(bits@));
    }
    octal
}

impl ChmodCalculator {
    /// The widget before any input: nothing granted.
    pub fn create() -> (fresh: Self)
        ensures
            fresh@ == spelling(Seq::new(9, |i: int| false)),
    {
        let mut fresh = ChmodCalculator {
            owner_read: false,
            owner_write: false,
            owner_execute: false,
            group_read: false,
            group_write: false,
            group_execute: false,
            public_read: false,
            public_write: false,
            public_execute: false,
            octal: String::new(),
            text: String::new(),
            command: String::new(),
        };
        fresh.calc_text_from_bits();
        fresh.calc_octal_from_bits();
        fresh.calc_command_from_octal();
        proof {
            assert(fresh@.bits =~= Seq::new(9, |i: int| false));
        }
        fresh
    }

    /// The nine bits in a row.
    fn bits(&self) -> (bits: [bool; 9])
        ensures
            bits@ == self@.bits,
    {
        let bits = [
            self.owner_read,
            self.owner_write,
            self.owner_execute,
            self.group_read,
            self.group_write,
            self.group_execute,
            self.public_read,
            self.public_write,
            self.public_execute,
        ];
        proof {
            assert(bits@ =~= self@.bits);
        }
        bits
    }

    /// Sets the nine bits from a row.
    #[verifier::rlimit(30)]
    fn set_bits(&mut self, bits: &[bool; 9])
        ensures
            final(self)@ == (ChmodView { bits: bits@, ..old(self)@ }),
    {
        self.owner_read = bits[0];
        self.owner_write = bits[1];
        self.owner_execute = bits[2];
        self.group_read = bits[3];
        self.group_write = bits[4];
        self.group_execute = bits[5];
        self.public_read = bits[6];
        self.public_write = bits[7];
        self.public_execute = bits[8];
        proof {
            assert(self@.bits =~= bits@);
        }
    }

    /// Writes the octal field from the bits.
    pub fn calc_octal_from_bits(&mut self)
        ensures
            final(self)@ == (ChmodView { octal: octal_of(old(self)@.bits), ..old(self)@ }),
    {
        let bits = self.bits();
        self.octal = octal_from(&bits);
    }

    /// Writes the text field from the bits.
    pub fn calc_text_from_bits(&mut self)
        ensures
            final(self)@ == (ChmodView { text: text_of(old(self)@.bits), ..old(self)@ }),
    {
        let mut text = String::new();
        text.push(mark(self.owner_read, 'r'));
        text.push(mark(self.owner_write, 'w'));
        text.push(mark(self.owner_execute, 'x'));
        text.push(mark(self.group_read, 'r'));
        text.push(mark(self.group_write, 'w'));
        text.push(mark(self.group_execute, 'x'));
        text.push(mark(self.public_read, 'r'));
        text.push(mark(self.public_write, 'w'));
        text.push(mark(self.public_execute, 'x'));
        proof {
            assert(text@ =~= text_of(self@.bits));
        }
        self.text = text;
    }

    /// Sets the bits from the octal field, digit by digit, where it holds
    /// three octal digits.
    pub fn calc_bits_from_octal(&mut self)
        ensures
            final(self)@ == (ChmodView {
                bits: if valid_octal(old(self)@.octal) {
                    bits_of_octal(old(self)@.octal)
                } else {
                    old(self)@.bits
                },
                ..old(self)@
            }),
    {
        let chars = chars_of(self.octal.as_str());
        if chars.len() != 3 {
            proof {
                assert(self@.bits =~= old(self)@.bits);
            }
            return ;
        }
        let owner = digit_of(chars[0]);
        let group = digit_of(chars[1]);
        let public = digit_of(chars[2]);
        if owner >= 8 || group >= 8 || public >= 8 {
            proof {
                assert(self@.bits =~= old(self)@.bits);
            }
            return ;
        }
        let bits = [
            owner / 4 % 2 == 1,
            owner / 2 % 2 == 1,
            owner % 2 == 1,
            group / 4 % 2 == 1,
            group / 2 % 2 == 1,
            group % 2 == 1,
            public / 4 % 2 == 1,
            public / 2 % 2 == 1,
            public % 2 == 1,
        ];
        proof {
            assert(bits@ =~= bits_of_octal(chars@));
        }
        self.set_bits(&bits);
    }

    /// Sets the bits from the text field, where it holds nine characters.
    pub fn calc_bits_from_text(&mut self)
        ensures
            final(self)@ == (ChmodView {
                bits: if old(self)@.text.len() == 9 {
                    bits_of_text(old(self)@.text)
                } else {
                    old(self)@.bits
                },
                ..old(self)@
            }),
    {
        let chars = chars_of(self.text.as_str());
        if chars.len() != 9 {
            proof {
                assert(self@.bits =~= old(self)@.bits);
            }
            return ;
        }
        let bits = [
            chars[0] == 'r',
            chars[1] == 'w',
            chars[2] == 'x',
            chars[3] == 'r',
            chars[4] == 'w',
            chars[5] == 'x',
            chars[6] == 'r',
            chars[7] == 'w',
            chars[8] == 'x',
        ];
        proof {
            assert(bits@ =~= bits_of_text(chars@));
        }
        self.set_bits(&bits);
    }

    /// Writes the octal field from the text field.
    pub fn calc_octal_from_text(&mut self)
        ensures
            final(self)@ == (ChmodView {
                octal: octal_of(bits_of_text(old(self)@.text)),
                ..old(self)@
            }),
    {
        let chars = chars_of(self.text.as_str());
        let mut bits: [bool; 9] = [false; 9];
        let allowed: [char; 3] = ['r', 'w', 'x'];
        let mut i: usize = 0;
        while i < 9
            invariant
                i <= 9,
                allowed@ == seq!['r', 'w', 'x'],
                forall|j: int| 0 <= j < i ==> bits@[j] == bits_of_text(chars@)[j],
            decreases 9 - i,
        {
            bits[i] = i < chars.len() && chars[i] == allowed[i % 3];
            i += 1;
        }
        proof {
            assert(bits@ =~= bits_of_text(chars@));
        }
        self.octal = octal_from(&bits);
    }

    /// Writes the command from the octal field.
    pub fn calc_command_from_octal(&mut self)
        ensures
            final(self)@ == (ChmodView { command: command_of(old(self)@.octal), ..old(self)@ }),
    {
        let mut command = "chmod ".to_owned();
        command.append(self.octal.as_str());
        proof {
            reveal_strlit("chmod ");
            assert(command@ =~= command_of(self@.octal));
        }
        self.command = command;
    }

    /// Flips bit `i`.
    fn toggle(&mut self, i: usize)
        requires
            i < 9,
        ensures
            final(self)@ == (ChmodView {
                bits: old(self)@.bits.update(i as int, !old(self)@.bits[i as int]),
                ..old(self)@
            }),
    {
        let mut bits = self.bits();
        bits[i] = !bits[i];
        self.set_bits(&bits);
    }

    /// Takes one message and says whether the widget is to be drawn again,
    /// which it always is. A box flips its bit, and all three fields are
    /// written anew. An edit keeps the typed text in its own field; where the
    /// text is accepted, the bits are set from it and the other fields follow
    /// the bits, with the command made of the octal field as it stands; where
    /// it is not, nothing else changes.
    pub fn update(&mut self, msg: ChmodCalculatorMsg) -> (render: bool)
        ensures
            render,
            final(self)@ == after(old(self)@, msg),
    {
        match msg {
            ChmodCalculatorMsg::ChangeOctal(value) => {
                let accepted = is_valid_octal(&value);
                self.octal = value;
                if accepted {
                    self.calc_bits_from_octal();
                    self.calc_text_from_bits();
                    self.calc_command_from_octal();
                }
            },
            ChmodCalculatorMsg::ChangeText(value) => {
                let accepted = is_valid_text(&value);
                self.text = value;
                if accepted {
                    self.calc_bits_from_text();
                    self.calc_octal_from_text();
                    self.calc_command_from_octal();
                }
            },
            ChmodCalculatorMsg::ChangeOwnerRead => self.flip(0),
            ChmodCalculatorMsg::ChangeOwnerWrite => self.flip(1),
            ChmodCalculatorMsg::ChangeOwnerExecute => self.flip(2),
            ChmodCalculatorMsg::ChangeGroupRead => self.flip(3),
            ChmodCalculatorMsg::ChangeGroupWrite => self.flip(4),
            ChmodCalculatorMsg::ChangeGroupExecute => self.flip(5),
            ChmodCalculatorMsg::ChangePublicRead => self.flip(6),
            ChmodCalculatorMsg::ChangePublicWrite => self.flip(7),
            ChmodCalculatorMsg::ChangePublicExecute => self.flip(8),
        }
        true
    }

    /// Flips bit `i` and writes all three fields anew.
    fn flip(&mut self, i: usize)
        requires
            i < 9,
        ensures
            final(self)@ == spelling(
                old(self)@.bits.update(i as int, !old(self)@.bits[i as int]),
            ),
    {
        self.toggle(i);
        self.calc_text_from_bits();
        self.calc_octal_from_bits();
        self.calc_command_from_octal();
    }
}

/// The text of nine bits is accepted and spells the same bits.
pub proof fn text_round_trip(bits: Seq<bool>)
    requires
        bits.len() == 9,
    ensures
        valid_text(text_of(bits)),
        bits_of_text(text_of(bits)) == bits,
{
    assert(bits_of_text(text_of(bits)) =~= bits);
}

/// An accepted text is the text of the bits that it spells.
pub proof fn text_reading_is_canonical(t: Seq<char>)
    requires
        valid_text(t),
    ensures
        text_of(bits_of_text(t)) == t,
{
    assert forall|i: int| 0 <= i < 9 implies text_of(bits_of_text(t))[i] == t[i] by {
        assert(t[i] == letter(i) || t[i] == '-');
    }
    assert(text_of(bits_of_text(t)) =~= t);
}

/// The octal digits of nine bits are octal digits, and each is worth the digit
/// of its triad.
proof fn lemma_octal_digits(bits: Seq<bool>)
    ensures
        octal_of(bits).len() == 3,
        forall|k: int|
            0 <= k < 3 ==> digit_value(#[trigger] octal_of(bits)[k]) == triad_digit(bits, k),
        forall|k: int| 0 <= k < 3 ==> 0 <= #[trigger] triad_digit(bits, k) < 8,
{
    assert forall|k: int| 0 <= k < 3 implies digit_value(#[trigger] octal_of(bits)[k])
        == triad_digit(bits, k) by {
        lemma_digit_char(triad_digit(bits, k));
    }
}

/// The octal digits of nine bits are accepted and spell the same bits.
pub proof fn octal_round_trip(bits: Seq<bool>)
    requires
        bits.len() == 9,
    ensures
        valid_octal(octal_of(bits)),
        bits_of_octal(octal_of(bits)) == bits,
{
    let o = octal_of(bits);
    lemma_octal_digits(bits);
    assert forall|i: int| 0 <= i < 9 implies bits_of_octal(o)[i] == bits[i] by {
        let k = i / 3;
        assert(digit_value(o[k]) == triad_digit(bits, k));
    }
    assert(bits_of_octal(o) =~= bits);
    assert(is_numeral(o, 8)) by {
        assert forall|k: int| 0 <= k < 3 implies digit_value(#[trigger] o[k]) < 8 by {
            assert(digit_value(o[k]) == triad_digit(bits, k));
        }
    }
}

/// Three octal digits are the octal digits of the bits that they spell.
pub proof fn octal_reading_is_canonical(o: Seq<char>)
    requires
        valid_octal(o),
    ensures
        octal_of(bits_of_octal(o)) == o,
{
    let bits = bits_of_octal(o);
    assert forall|k: int| 0 <= k < 3 implies octal_of(bits)[k] == o[k] by {
        let d = digit_value(o[k]);
        assert(d < 8);
        assert(bits[3 * k] == digit_grants(d, 3 * k));
        assert(bits[3 * k + 1] == digit_grants(d, 3 * k + 1));
        assert(bits[3 * k + 2] == digit_grants(d, 3 * k + 2));
        assert(triad_digit(bits, k) == d);
    }
    assert(octal_of(bits) =~= o);
}

/// `msg` is a box, or an edit whose text is accepted.
pub open spec fn accepted(msg: ChmodCalculatorMsg) -> bool {
    match msg {
        ChmodCalculatorMsg::ChangeOctal(value) => valid_octal(value@),
        ChmodCalculatorMsg::ChangeText(value) => valid_text(value@),
        _ => true,
    }
}

/// After a box or an accepted edit, every field spells the bits: each octal
/// digit is 4 for read, 2 for write and 1 for execute, the text has the
/// letter of each set bit, and the command names the octal digits.
pub proof fn fields_spell_the_bits(state: ChmodView, msg: ChmodCalculatorMsg)
    requires
        state.bits.len() == 9,
        accepted(msg),
    ensures
        after(state, msg) == spelling(after(state, msg).bits),
{
    match msg {
        ChmodCalculatorMsg::ChangeOctal(value) => {
            octal_reading_is_canonical(value@);
        },
        ChmodCalculatorMsg::ChangeText(value) => {
            text_reading_is_canonical(value@);
        },
        _ => {},
    }
}

/// The bits are nine, and the command is `chmod` and the octal digits of the
/// bits.
pub open spec fn command_names_the_bits(state: ChmodView) -> bool {
    state.bits.len() == 9 && state.command == command_of(octal_of(state.bits))
}

/// The command names the bits of a fresh widget and goes on naming them
/// after every message; the bits change only with a box or an accepted edit.
pub proof fn command_follows_the_bits(state: ChmodView, msg: ChmodCalculatorMsg)
    requires
        command_names_the_bits(state),
    ensures
        command_names_the_bits(spelling(Seq::new(9, |i: int| false))),
        command_names_the_bits(after(state, msg)),
        !accepted(msg) ==> after(state, msg).bits == state.bits,
{
    if accepted(msg) {
        fields_spell_the_bits(state, msg);
    }
}

} // verus!
