use toolbox::components::chmodcalculator::{
    is_valid_octal, is_valid_text, ChmodCalculator, ChmodCalculatorMsg,
};

fn bits(calc: &ChmodCalculator) -> [bool; 9] {
    [
        calc.owner_read,
        calc.owner_write,
        calc.owner_execute,
        calc.group_read,
        calc.group_write,
        calc.group_execute,
        calc.public_read,
        calc.public_write,
        calc.public_execute,
    ]
}

fn with_bits(v: u16) -> ChmodCalculator {
    let mut calc = ChmodCalculator::create();
    calc.owner_read = v & 0o400 != 0;
    calc.owner_write = v & 0o200 != 0;
    calc.owner_execute = v & 0o100 != 0;
    calc.group_read = v & 0o040 != 0;
    calc.group_write = v & 0o020 != 0;
    calc.group_execute = v & 0o010 != 0;
    calc.public_read = v & 0o004 != 0;
    calc.public_write = v & 0o002 != 0;
    calc.public_execute = v & 0o001 != 0;
    calc
}

fn toggle(i: usize) -> ChmodCalculatorMsg {
    match i {
        0 => ChmodCalculatorMsg::ChangeOwnerRead,
        1 => ChmodCalculatorMsg::ChangeOwnerWrite,
        2 => ChmodCalculatorMsg::ChangeOwnerExecute,
        3 => ChmodCalculatorMsg::ChangeGroupRead,
        4 => ChmodCalculatorMsg::ChangeGroupWrite,
        5 => ChmodCalculatorMsg::ChangeGroupExecute,
        6 => ChmodCalculatorMsg::ChangePublicRead,
        7 => ChmodCalculatorMsg::ChangePublicWrite,
        _ => ChmodCalculatorMsg::ChangePublicExecute,
    }
}

#[test]
fn fresh_chmod_calculator_grants_nothing() {
    let calc = ChmodCalculator::create();
    assert_eq!(bits(&calc), [false; 9]);
    assert_eq!(calc.octal, "000");
    assert_eq!(calc.text, "---------");
    assert_eq!(calc.command, "chmod 000");
}

#[test]
fn text_validator_accepts_and_rejects() {
    assert!(!is_valid_text(&"rwxrwxrw".to_string()));
    assert!(!is_valid_text(&"rwxrwxrwz".to_string()));
    assert!(!is_valid_text(&"wrxrwxrwx".to_string()));
    assert!(is_valid_text(&"rw-r--r--".to_string()));
    assert!(is_valid_text(&"---------".to_string()));
    assert!(is_valid_text(&"rwxrwxrwx".to_string()));
    assert!(!is_valid_text(&"rwxrwxrwxr".to_string()));
    assert!(!is_valid_text(&"".to_string()));
    assert!(!is_valid_text(&"RWXRWXRWX".to_string()));
    assert!(!is_valid_text(&"rwxrwxrw ".to_string()));
    assert!(!is_valid_text(&"rwxrwxé".to_string()));
    assert!(!is_valid_text(&"rwxrwxrwé".to_string()));
}

#[test]
fn octal_755_spells_text_and_command() {
    let mut calc = ChmodCalculator::create();
    assert!(calc.update(ChmodCalculatorMsg::ChangeOctal("755".to_string())));
    assert_eq!(calc.octal, "755");
    assert_eq!(calc.text, "rwxr-xr-x");
    assert_eq!(calc.command, "chmod 755");
    assert_eq!(bits(&calc), [true, true, true, true, false, true, true, false, true]);
}

#[test]
fn text_edit_sets_bits_octal_and_command() {
    let mut calc = ChmodCalculator::create();
    assert!(calc.update(ChmodCalculatorMsg::ChangeText("rw-r--r--".to_string())));
    assert_eq!(calc.text, "rw-r--r--");
    assert_eq!(calc.octal, "644");
    assert_eq!(calc.command, "chmod 644");
    assert_eq!(bits(&calc), [true, true, false, true, false, false, true, false, false]);
}

#[test]
fn toggles_recompute_every_field() {
    let mut calc = ChmodCalculator::create();
    assert!(calc.update(ChmodCalculatorMsg::ChangeOwnerRead));
    assert_eq!((calc.octal.as_str(), calc.text.as_str()), ("400", "r--------"));
    calc.update(ChmodCalculatorMsg::ChangeOwnerWrite);
    calc.update(ChmodCalculatorMsg::ChangeOwnerExecute);
    assert_eq!((calc.octal.as_str(), calc.text.as_str()), ("700", "rwx------"));
    calc.update(ChmodCalculatorMsg::ChangeGroupRead);
    calc.update(ChmodCalculatorMsg::ChangeGroupWrite);
    calc.update(ChmodCalculatorMsg::ChangeGroupExecute);
    assert_eq!((calc.octal.as_str(), calc.text.as_str()), ("770", "rwxrwx---"));
    calc.update(ChmodCalculatorMsg::ChangePublicRead);
    calc.update(ChmodCalculatorMsg::ChangePublicWrite);
    calc.update(ChmodCalculatorMsg::ChangePublicExecute);
    assert_eq!((calc.octal.as_str(), calc.text.as_str()), ("777", "rwxrwxrwx"));
    assert_eq!(calc.command, "chmod 777");
    calc.update(ChmodCalculatorMsg::ChangeGroupWrite);
    assert_eq!((calc.octal.as_str(), calc.text.as_str()), ("757", "rwxr-xrwx"));
    assert_eq!(calc.command, "chmod 757");
}

#[test]
fn each_toggle_flips_its_own_bit() {
    for i in 0..9 {
        let mut calc = ChmodCalculator::create();
        calc.update(toggle(i));
        let mut expected = [false; 9];
        expected[i] = true;
        assert_eq!(bits(&calc), expected);
        calc.update(toggle(i));
        assert_eq!(bits(&calc), [false; 9]);
        assert_eq!(calc.octal, "000");
    }
}

#[test]
fn invalid_octal_keeps_raw_text_and_derived_state() {
    for bad in ["75", "7555", "758", "7 5", "", "abc", "0o7", "é5", "+75", "-10", "+12", "7é5"] {
        let mut calc = ChmodCalculator::create();
        calc.update(ChmodCalculatorMsg::ChangeOctal("640".to_string()));
        assert!(calc.update(ChmodCalculatorMsg::ChangeOctal(bad.to_string())));
        assert_eq!(calc.octal, bad);
        assert_eq!(calc.text, "rw-r-----");
        assert_eq!(calc.command, "chmod 640");
        assert_eq!(bits(&calc), [true, true, false, true, false, false, false, false, false]);
    }
}

#[test]
fn invalid_text_keeps_raw_text_and_derived_state() {
    for bad in ["rwxrwxrw", "rwxrwxrwz", "wrxrwxrwx", "", "rwxrwxrwxr"] {
        let mut calc = ChmodCalculator::create();
        calc.update(ChmodCalculatorMsg::ChangeOctal("640".to_string()));
        assert!(calc.update(ChmodCalculatorMsg::ChangeText(bad.to_string())));
        assert_eq!(calc.text, bad);
        assert_eq!(calc.octal, "640");
        assert_eq!(calc.command, "chmod 640");
        assert_eq!(bits(&calc), [true, true, false, true, false, false, false, false, false]);
    }
}

#[test]
fn octal_validator_accepts_three_octal_digits_only() {
    for good in ["000", "755", "644", "777", "012"] {
        assert!(is_valid_octal(&good.to_string()), "{:?}", good);
    }
    for bad in ["", "7", "75", "7555", "758", "79a", "+75", "-75", "+12", " 75", "7.5", "٧٥٥"] {
        assert!(!is_valid_octal(&bad.to_string()), "{:?}", bad);
    }
}

#[test]
fn a_signed_octal_text_changes_nothing_but_its_field() {
    let mut calc = ChmodCalculator::create();
    assert!(calc.update(ChmodCalculatorMsg::ChangeOctal("+12".to_string())));
    assert_eq!(calc.octal, "+12");
    assert_eq!(bits(&calc), [false; 9]);
    assert_eq!(calc.text, "---------");
    assert_eq!(calc.command, "chmod 000");
}

#[test]
fn the_command_names_the_bits_after_every_message() {
    let digits = |calc: &ChmodCalculator| {
        let b = bits(calc);
        let digit = |k: usize| {
            4 * (b[3 * k] as u8) + 2 * (b[3 * k + 1] as u8) + (b[3 * k + 2] as u8)
        };
        format!("chmod {}{}{}", digit(0), digit(1), digit(2))
    };
    let mut calc = ChmodCalculator::create();
    assert_eq!(calc.command, digits(&calc));
    let messages = [
        ChmodCalculatorMsg::ChangeOwnerRead,
        ChmodCalculatorMsg::ChangeOctal("+12".to_string()),
        ChmodCalculatorMsg::ChangeOctal("75".to_string()),
        ChmodCalculatorMsg::ChangeOctal("751".to_string()),
        ChmodCalculatorMsg::ChangeText("rwx".to_string()),
        ChmodCalculatorMsg::ChangePublicWrite,
        ChmodCalculatorMsg::ChangeText("r--r--r--".to_string()),
        ChmodCalculatorMsg::ChangeOctal("-44".to_string()),
        ChmodCalculatorMsg::ChangeText("wrxrwxrwx".to_string()),
        ChmodCalculatorMsg::ChangeGroupExecute,
    ];
    let commands = [
        "chmod 400", "chmod 400", "chmod 400", "chmod 751", "chmod 751", "chmod 753",
        "chmod 444", "chmod 444", "chmod 444", "chmod 454",
    ];
    for (msg, command) in messages.into_iter().zip(commands) {
        assert!(calc.update(msg));
        assert_eq!(calc.command, command);
        assert_eq!(calc.command, digits(&calc));
    }
}

#[test]
fn text_and_octal_round_trip_for_every_permission() {
    for v in 0..512u16 {
        let mut calc = with_bits(v);
        calc.calc_text_from_bits();
        calc.calc_octal_from_bits();
        calc.calc_command_from_octal();
        assert_eq!(calc.octal, format!("{:03o}", v));
        assert_eq!(calc.command, format!("chmod {:03o}", v));
        assert!(is_valid_text(&calc.text));

        let mut from_text = ChmodCalculator::create();
        from_text.update(ChmodCalculatorMsg::ChangeText(calc.text.clone()));
        assert_eq!(bits(&from_text), bits(&calc));
        assert_eq!(from_text.octal, calc.octal);

        let mut from_octal = with_bits(!v & 0o777);
        from_octal.update(ChmodCalculatorMsg::ChangeOctal(calc.octal.clone()));
        assert_eq!(bits(&from_octal), bits(&calc));
        assert_eq!(from_octal.text, calc.text);
    }
}

#[test]
fn calc_bits_from_octal_needs_three_octal_digits() {
    let mut calc = with_bits(0o777);
    calc.octal = "12".to_string();
    calc.calc_bits_from_octal();
    assert_eq!(bits(&calc), [true; 9]);
    calc.octal = "1x4".to_string();
    calc.calc_bits_from_octal();
    assert_eq!(bits(&calc), [true; 9]);
    calc.octal = "+14".to_string();
    calc.calc_bits_from_octal();
    assert_eq!(bits(&calc), [true; 9]);
    calc.octal = "104".to_string();
    calc.calc_bits_from_octal();
    assert_eq!(bits(&calc), [false, false, true, false, false, false, true, false, false]);
}

#[test]
fn calc_bits_from_text_needs_nine_characters() {
    let mut calc = with_bits(0o777);
    calc.text = "r--".to_string();
    calc.calc_bits_from_text();
    assert_eq!(bits(&calc), [true; 9]);
    calc.text = "r-xr-xr-x".to_string();
    calc.calc_bits_from_text();
    assert_eq!(bits(&calc), [true, false, true, true, false, true, true, false, true]);
    calc.text = "xwrxwr-w-".to_string();
    calc.calc_bits_from_text();
    assert_eq!(bits(&calc), [false, true, false, false, true, false, false, true, false]);
}

#[test]
fn calc_octal_from_text_reads_what_is_there() {
    let mut calc = ChmodCalculator::create();
    calc.text = "rwxr-xr-x".to_string();
    calc.calc_octal_from_text();
    assert_eq!(calc.octal, "755");
    calc.text = "rwxr".to_string();
    calc.calc_octal_from_text();
    assert_eq!(calc.octal, "740");
    assert_eq!(bits(&calc), [false; 9]);
}
