use fsm_regex::{FsmAction, FsmColumn, Regex, RegexError};

fn row(regex: &Regex, code: usize) -> String {
    let text = regex.dump();
    let line = text.lines().nth(code).expect("one line per symbol code");
    line.to_string()
}

#[test]
fn new_column_rejects_every_symbol() {
    let column = FsmColumn::new();
    assert_eq!(column.transition.len(), 130);
    for action in column.transition.iter() {
        assert_eq!(*action, FsmAction { next: 0, offset: 0 });
    }
}

#[test]
fn default_action_rejects() {
    assert_eq!(FsmAction::default(), FsmAction { next: 0, offset: 0 });
}

#[test]
fn empty_pattern_is_one_blank_column() {
    let regex = Regex::compile("").unwrap();
    let text = regex.dump();
    assert_eq!(text.lines().count(), 130);
    assert_eq!(row(&regex, 0), "000 => (0, 0)");
    assert_eq!(row(&regex, 97), "097 => (0, 0)");
    assert_eq!(row(&regex, 129), "129 => (0, 0)");
}

#[test]
fn star_free_pattern_has_one_column_per_character() {
    let regex = Regex::compile("a.c$").unwrap();
    assert_eq!(row(&regex, 0), "000 => (0, 0)(0, 0)(0, 0)(0, 0)(0, 0)");
    assert_eq!(row(&regex, 97), "097 => (0, 0)(2, 1)(3, 1)(0, 0)(0, 0)");
    assert_eq!(row(&regex, 99), "099 => (0, 0)(0, 0)(3, 1)(4, 1)(0, 0)");
    assert_eq!(row(&regex, 129), "129 => (0, 0)(0, 0)(0, 0)(0, 0)(5, 1)");
}

#[test]
fn literal_populates_its_own_code_only() {
    let regex = Regex::compile("b").unwrap();
    for code in 0..130 {
        let expected = if code == 98 {
            format!("{:03} => (0, 0)(2, 1)", code)
        } else {
            format!("{:03} => (0, 0)(0, 0)", code)
        };
        assert_eq!(row(&regex, code), expected);
    }
}

#[test]
fn wildcard_populates_the_printable_codes() {
    let regex = Regex::compile(".").unwrap();
    for code in 0..130 {
        let expected = if (32..=126).contains(&code) {
            format!("{:03} => (0, 0)(2, 1)", code)
        } else {
            format!("{:03} => (0, 0)(0, 0)", code)
        };
        assert_eq!(row(&regex, code), expected);
    }
}

#[test]
fn end_anchor_populates_the_end_of_input_code() {
    let regex = Regex::compile("$").unwrap();
    for code in 0..130 {
        let expected = if code == 129 {
            format!("{:03} => (0, 0)(2, 1)", code)
        } else {
            format!("{:03} => (0, 0)(0, 0)", code)
        };
        assert_eq!(row(&regex, code), expected);
    }
}

#[test]
fn star_rewrites_the_column_before_it() {
    let regex = Regex::compile("a*bc").unwrap();
    assert_eq!(row(&regex, 0), "000 => (0, 0)(2, 0)(0, 0)(0, 0)");
    assert_eq!(row(&regex, 97), "097 => (0, 0)(1, 1)(0, 0)(0, 0)");
    assert_eq!(row(&regex, 98), "098 => (0, 0)(2, 0)(3, 1)(0, 0)");
    assert_eq!(row(&regex, 99), "099 => (0, 0)(2, 0)(0, 0)(4, 1)");
    assert_eq!(row(&regex, 129), "129 => (0, 0)(2, 0)(0, 0)(0, 0)");
}

#[test]
fn star_on_wildcard_and_on_anchor() {
    let regex = Regex::compile(".*$*").unwrap();
    assert_eq!(row(&regex, 31), "031 => (0, 0)(2, 0)(3, 0)");
    assert_eq!(row(&regex, 32), "032 => (0, 0)(1, 1)(3, 0)");
    assert_eq!(row(&regex, 126), "126 => (0, 0)(1, 1)(3, 0)");
    assert_eq!(row(&regex, 127), "127 => (0, 0)(2, 0)(3, 0)");
    assert_eq!(row(&regex, 129), "129 => (0, 0)(2, 0)(2, 1)");
}

#[test]
fn dump_writes_numbers_in_decimal() {
    let regex = Regex::compile("abcdefghijkl").unwrap();
    assert_eq!(
        row(&regex, 108),
        "108 => (0, 0)(0, 0)(0, 0)(0, 0)(0, 0)(0, 0)(0, 0)(0, 0)(0, 0)(0, 0)(0, 0)(0, 0)(13, 1)"
    );
    assert_eq!(
        row(&regex, 105),
        "105 => (0, 0)(0, 0)(0, 0)(0, 0)(0, 0)(0, 0)(0, 0)(0, 0)(0, 0)(10, 1)(0, 0)(0, 0)(0, 0)"
    );
    assert_eq!(
        row(&regex, 9),
        "009 => (0, 0)(0, 0)(0, 0)(0, 0)(0, 0)(0, 0)(0, 0)(0, 0)(0, 0)(0, 0)(0, 0)(0, 0)(0, 0)"
    );
}

#[test]
fn dump_ends_every_line_with_a_newline() {
    let regex = Regex::compile("a").unwrap();
    let text = regex.dump();
    assert!(text.starts_with("000 => (0, 0)(0, 0)\n001 => (0, 0)(0, 0)\n"));
    assert!(text.ends_with("128 => (0, 0)(0, 0)\n129 => (0, 0)(0, 0)\n"));
    assert_eq!(text.matches('\n').count(), 130);
}

#[test]
fn compiling_twice_gives_the_same_table() {
    let first = Regex::compile("a*b.c$").unwrap();
    let second = Regex::compile("a*b.c$").unwrap();
    assert_eq!(first.dump(), second.dump());
}

#[test]
fn leading_star_is_malformed() {
    assert_eq!(Regex::compile("*").err(), Some(RegexError::MalformedPattern));
    assert_eq!(Regex::compile("*a").err(), Some(RegexError::MalformedPattern));
}

#[test]
fn star_after_star_is_malformed() {
    assert_eq!(Regex::compile("a**").err(), Some(RegexError::MalformedPattern));
    assert_eq!(Regex::compile("ab.**c").err(), Some(RegexError::MalformedPattern));
}

#[test]
fn star_after_an_atom_compiles() {
    assert!(Regex::compile("a*b*").is_ok());
    assert!(Regex::compile(".*").is_ok());
    assert!(Regex::compile("$*").is_ok());
}

#[test]
fn pattern_character_without_a_code_is_out_of_range() {
    assert_eq!(Regex::compile("\u{82}").err(), Some(RegexError::SymbolOutOfRange));
    assert_eq!(Regex::compile("caf\u{e9}").err(), Some(RegexError::SymbolOutOfRange));
    assert_eq!(Regex::compile("a\u{1f600}b").err(), Some(RegexError::SymbolOutOfRange));
    assert!(Regex::compile("\u{81}").is_ok());
    assert!(Regex::compile("\u{7f}").is_ok());
}

#[test]
fn first_fault_decides_the_error() {
    assert_eq!(Regex::compile("\u{e9}**").err(), Some(RegexError::SymbolOutOfRange));
    assert_eq!(Regex::compile("**\u{e9}").err(), Some(RegexError::MalformedPattern));
    assert_eq!(Regex::compile("a*\u{e9}**").err(), Some(RegexError::SymbolOutOfRange));
}

#[test]
fn dump_of_star_then_literals_in_full() {
    let regex = Regex::compile("a*bc").unwrap();
    let mut expected = String::new();
    for code in 0..130 {
        let first = if code == 97 { (1, 1) } else { (2, 0) };
        let second = if code == 98 { (3, 1) } else { (0, 0) };
        let third = if code == 99 { (4, 1) } else { (0, 0) };
        expected.push_str(&format!("{:03} => ", code));
        for (next, offset) in [(0, 0), first, second, third] {
            expected.push_str(&format!("({}, {})", next, offset));
        }
        expected.push('\n');
    }
    assert_eq!(regex.dump(), expected);
}
