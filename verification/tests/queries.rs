use clappers::Clappers;

fn strings(words: &[&str]) -> Vec<String> {
    words.iter().map(|w| w.to_string()).collect()
}

#[test]
fn unknown_alias_defaults() {
    let parser = Clappers::build()
        .add_flags(vec!["h|help"])
        .add_singles(vec!["o|output"])
        .add_multiples(vec!["i|input"])
        .parse_args(strings(&["-h"]));
    assert_eq!(parser.get_flag("z"), false);
    assert_eq!(parser.get_single("z"), "".to_string());
    assert_eq!(parser.get_multiple("z"), Vec::<String>::new());
    assert_eq!(parser.get_leftovers(), Vec::<String>::new());
}

#[test]
fn alias_equivalence() {
    let parser = Clappers::build()
        .add_flags(vec!["h|help"])
        .add_singles(vec!["o|output"])
        .add_multiples(vec!["i|input"])
        .parse_args(strings(&["-h", "-o", "f.txt", "-i", "a", "b"]));
    assert_eq!(parser.get_flag("h"), parser.get_flag("help"));
    assert!(parser.get_flag("help"));
    assert_eq!(parser.get_single("o"), parser.get_single("output"));
    assert_eq!(parser.get_single("output"), "f.txt".to_string());
    assert_eq!(parser.get_multiple("i"), parser.get_multiple("input"));
    assert_eq!(parser.get_multiple("input"), strings(&["a", "b"]));
}

#[test]
fn flag_present_and_absent() {
    let with_flag = Clappers::build()
        .add_flags(vec!["h|help"])
        .parse_args(strings(&["-h"]));
    assert!(with_flag.get_flag("h"));
    assert!(with_flag.get_flag("help"));

    let without_flag = Clappers::build()
        .add_flags(vec!["h|help"])
        .parse_args(Vec::new());
    assert!(!without_flag.get_flag("h"));
    assert!(!without_flag.get_flag("help"));
}

#[test]
fn single_value_supplied() {
    let parser = Clappers::build()
        .add_singles(vec!["o|output"])
        .parse_args(strings(&["-o", "out.txt"]));
    assert_eq!(parser.get_single("output"), "out.txt".to_string());
}

#[test]
fn single_value_withheld_before_dashed_token() {
    let parser = Clappers::build()
        .add_singles(vec!["o|output"])
        .parse_args(strings(&["-o", "-x"]));
    assert_eq!(parser.get_single("output"), "".to_string());
}

#[test]
fn multiple_accumulates_runs_and_repetitions() {
    let parser = Clappers::build()
        .add_multiples(vec!["i|input"])
        .parse_args(strings(&["-i", "a.txt", "b.txt", "-i", "c.txt"]));
    assert_eq!(parser.get_multiple("input"), strings(&["a.txt", "b.txt", "c.txt"]));
}

#[test]
fn leftovers_keep_order_around_options() {
    let parser = Clappers::build()
        .add_flags(vec!["h"])
        .parse_args(strings(&["x", "-h", "y"]));
    assert_eq!(parser.get_leftovers(), strings(&["x", "y"]));
    assert!(parser.get_flag("h"));
}

#[test]
fn two_independent_runs_agree() {
    let first = Clappers::build()
        .add_flags(vec!["h|help", "v|verbose"])
        .add_singles(vec!["o|output"])
        .add_multiples(vec!["i|input"])
        .parse_args(strings(&["-v", "-o", "out", "-i", "a", "b", "rest"]));
    let second = Clappers::build()
        .add_flags(vec!["h|help", "v|verbose"])
        .add_singles(vec!["o|output"])
        .add_multiples(vec!["i|input"])
        .parse_args(strings(&["-v", "-o", "out", "-i", "a", "b", "rest"]));
    assert_eq!(first.get_flag("h"), second.get_flag("h"));
    assert_eq!(first.get_flag("verbose"), second.get_flag("verbose"));
    assert_eq!(first.get_single("output"), second.get_single("output"));
    assert_eq!(first.get_multiple("input"), second.get_multiple("input"));
    assert_eq!(first.get_leftovers(), second.get_leftovers());
}
