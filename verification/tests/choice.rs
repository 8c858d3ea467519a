use tictactoe::input::parse_choice;

#[test]
fn a_number_picks_its_entry() {
    assert_eq!(parse_choice("1"), 1);
    assert_eq!(parse_choice("2\n"), 2);
    assert_eq!(parse_choice("  3  "), 3);
    assert_eq!(parse_choice("\t12\r\n"), 12);
    assert_eq!(parse_choice("255"), 255);
    assert_eq!(parse_choice("0"), 0);
}

#[test]
fn a_plus_sign_and_leading_zeros_pick_the_same_entry() {
    assert_eq!(parse_choice("+2"), 2);
    assert_eq!(parse_choice("002"), 2);
    assert_eq!(parse_choice("+000000000000000000000000000255"), 255);
}

#[test]
fn a_number_above_255_picks_nothing() {
    assert_eq!(parse_choice("256"), 0);
    assert_eq!(parse_choice("257"), 0);
    assert_eq!(parse_choice("1000"), 0);
    assert_eq!(parse_choice("2560"), 0);
    assert_eq!(parse_choice("99999999999999999999999999999999999999999"), 0);
}

#[test]
fn any_other_line_picks_nothing() {
    assert_eq!(parse_choice(""), 0);
    assert_eq!(parse_choice("\n"), 0);
    assert_eq!(parse_choice("one"), 0);
    assert_eq!(parse_choice("-1"), 0);
    assert_eq!(parse_choice("+"), 0);
    assert_eq!(parse_choice("++1"), 0);
    assert_eq!(parse_choice("1 2"), 0);
    assert_eq!(parse_choice("1."), 0);
    assert_eq!(parse_choice("(1)"), 0);
    assert_eq!(parse_choice("1,"), 0);
    assert_eq!(parse_choice("0x1"), 0);
}

#[test]
fn every_entry_reads_as_the_standard_library_reads_it() {
    for n in 0..=300u32 {
        for line in [format!("{n}"), format!(" +{n}\n"), format!("0{n}"), format!("{n}0"), format!("-{n}")] {
            let expected: u8 = line.trim().parse().unwrap_or(0);
            assert_eq!(parse_choice(&line), expected, "{line:?}");
        }
    }
}
