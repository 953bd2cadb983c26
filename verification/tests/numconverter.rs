use toolbox::components::numconverter::{
    convert_from, parse_in, write_in, Base, NumConverter, NumConverterMsg,
};

fn fields(conv: &NumConverter) -> (&str, &str, &str, &str) {
    (conv.hex.as_str(), conv.dec.as_str(), conv.oct.as_str(), conv.bin.as_str())
}

#[test]
fn fresh_num_converter_is_empty() {
    let conv = NumConverter::create();
    assert_eq!(fields(&conv), ("", "", "", ""));
}

#[test]
fn hex_ff_converts_to_the_other_bases() {
    let mut conv = NumConverter::create();
    assert!(conv.update(NumConverterMsg::ConvertHex("FF".to_string())));
    assert_eq!(fields(&conv), ("FF", "255", "377", "11111111"));
}

#[test]
fn each_field_converts_to_the_other_three() {
    let mut conv = NumConverter::create();
    assert!(conv.update(NumConverterMsg::ConvertDec("255".to_string())));
    assert_eq!(fields(&conv), ("FF", "255", "377", "11111111"));
    assert!(conv.update(NumConverterMsg::ConvertOct("17".to_string())));
    assert_eq!(fields(&conv), ("F", "15", "17", "1111"));
    assert!(conv.update(NumConverterMsg::ConvertBin("1010".to_string())));
    assert_eq!(fields(&conv), ("A", "10", "12", "1010"));
    assert!(conv.update(NumConverterMsg::ConvertHex("0".to_string())));
    assert_eq!(fields(&conv), ("0", "0", "0", "0"));
}

#[test]
fn edited_field_keeps_the_typed_text() {
    let mut conv = NumConverter::create();
    conv.update(NumConverterMsg::ConvertHex("00ff".to_string()));
    assert_eq!(fields(&conv), ("00ff", "255", "377", "11111111"));
    conv.update(NumConverterMsg::ConvertDec("+0012".to_string()));
    assert_eq!(fields(&conv), ("C", "+0012", "14", "1100"));
}

#[test]
fn unreadable_text_clears_the_other_fields() {
    for bad in ["", "G", "0x10", "12 ", "-", "+", "8000000000000000", "FFFFFFFFFFFFFFFFF"] {
        let mut conv = NumConverter::create();
        conv.update(NumConverterMsg::ConvertDec("7".to_string()));
        assert!(conv.update(NumConverterMsg::ConvertHex(bad.to_string())));
        assert_eq!(fields(&conv), (bad, "", "", ""));
    }
    let mut conv = NumConverter::create();
    conv.update(NumConverterMsg::ConvertDec("9223372036854775808".to_string()));
    assert_eq!(fields(&conv), ("", "9223372036854775808", "", ""));
    conv.update(NumConverterMsg::ConvertOct("8".to_string()));
    assert_eq!(fields(&conv), ("", "", "8", ""));
    conv.update(NumConverterMsg::ConvertBin("2".to_string()));
    assert_eq!(fields(&conv), ("", "", "", "2"));
}

#[test]
fn negative_numbers_carry_a_sign_in_every_base() {
    let mut conv = NumConverter::create();
    conv.update(NumConverterMsg::ConvertDec("-1".to_string()));
    assert_eq!(fields(&conv), ("-1", "-1", "-1", "-1"));
    conv.update(NumConverterMsg::ConvertHex("-ff".to_string()));
    assert_eq!(fields(&conv), ("-ff", "-255", "-377", "-11111111"));
    conv.update(NumConverterMsg::ConvertDec("-48879".to_string()));
    assert_eq!(fields(&conv), ("-BEEF", "-48879", "-137357", "-1011111011101111"));
}

#[test]
fn a_negative_derived_field_typed_back_gives_the_same_fields() {
    for n in [-1i64, -2, -255, -48879, i64::MIN + 1, i64::MIN] {
        let mut conv = NumConverter::create();
        conv.update(NumConverterMsg::ConvertDec(n.to_string()));
        let expected =
            (conv.hex.clone(), conv.dec.clone(), conv.oct.clone(), conv.bin.clone());
        assert_eq!(conv.dec, n.to_string());
        let hex = conv.hex.clone();
        conv.update(NumConverterMsg::ConvertHex(hex));
        assert_eq!(fields(&conv), (&*expected.0, &*expected.1, &*expected.2, &*expected.3));
        let oct = conv.oct.clone();
        conv.update(NumConverterMsg::ConvertOct(oct));
        assert_eq!(fields(&conv), (&*expected.0, &*expected.1, &*expected.2, &*expected.3));
        let bin = conv.bin.clone();
        conv.update(NumConverterMsg::ConvertBin(bin));
        assert_eq!(fields(&conv), (&*expected.0, &*expected.1, &*expected.2, &*expected.3));
    }
}

#[test]
fn extremes_of_the_signed_range_convert() {
    let mut conv = NumConverter::create();
    conv.update(NumConverterMsg::ConvertDec("9223372036854775807".to_string()));
    assert_eq!(conv.hex, "7FFFFFFFFFFFFFFF");
    conv.update(NumConverterMsg::ConvertDec("-9223372036854775808".to_string()));
    assert_eq!(conv.hex, "-8000000000000000");
    assert_eq!(conv.oct, "-1000000000000000000000");
    assert_eq!(conv.bin, format!("-1{}", "0".repeat(63)));
    conv.update(NumConverterMsg::ConvertHex("-8000000000000000".to_string()));
    assert_eq!(conv.dec, "-9223372036854775808");
}

#[test]
fn convert_from_gives_all_four_fields() {
    let conv = convert_from(Base::Oct, "755".to_string());
    assert_eq!(fields(&conv), ("1ED", "493", "755", "111101101"));
    let conv = convert_from(Base::Bin, "x".to_string());
    assert_eq!(fields(&conv), ("", "", "", "x"));
}

#[test]
fn radix_of_each_base() {
    assert_eq!(Base::Hex.radix(), 16);
    assert_eq!(Base::Dec.radix(), 10);
    assert_eq!(Base::Oct.radix(), 8);
    assert_eq!(Base::Bin.radix(), 2);
}

#[test]
fn formatting_then_parsing_yields_the_number() {
    let numbers = [0i64, 1, 2, 7, 8, 9, 10, 15, 16, 255, 256, 1 << 31, 1 << 32, i64::MAX];
    for n in numbers {
        for base in [Base::Hex, Base::Dec, Base::Oct, Base::Bin] {
            assert_eq!(parse_in(base, &write_in(base, n)), Some(n));
        }
    }
    for n in [-1i64, -2, -255, -256, i64::MIN + 1, i64::MIN] {
        for base in [Base::Hex, Base::Dec, Base::Oct, Base::Bin] {
            assert_eq!(parse_in(base, &write_in(base, n)), Some(n));
        }
    }
    assert_eq!(write_in(Base::Hex, -255), "-FF");
    assert_eq!(write_in(Base::Oct, -8), "-10");
    assert_eq!(write_in(Base::Bin, -5), "-101");
}

#[test]
fn a_derived_field_typed_back_gives_the_same_fields() {
    let mut conv = NumConverter::create();
    conv.update(NumConverterMsg::ConvertDec("48879".to_string()));
    let expected = ("BEEF", "48879", "137357", "1011111011101111");
    assert_eq!(fields(&conv), expected);
    let hex = conv.hex.clone();
    conv.update(NumConverterMsg::ConvertHex(hex));
    assert_eq!(fields(&conv), expected);
    let oct = conv.oct.clone();
    conv.update(NumConverterMsg::ConvertOct(oct));
    assert_eq!(fields(&conv), expected);
    let bin = conv.bin.clone();
    conv.update(NumConverterMsg::ConvertBin(bin));
    assert_eq!(fields(&conv), expected);
}
