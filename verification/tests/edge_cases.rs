use clappers::Clappers;

fn words(words: &[&str]) -> Vec<String> {
    words.iter().map(|w| w.to_string()).collect()
}

#[test]
fn double_dash_alias_form_matches() {
    let parser = Clappers::build()
        .add_flags(vec!["v|verbose"])
        .parse_args(words(&["--verbose"]));
    assert!(parser.get_flag("v"));
}

#[test]
fn triple_dash_keeps_extra_dash_and_misses() {
    let parser = Clappers::build()
        .add_flags(vec!["h|help"])
        .parse_args(words(&["---h"]));
    assert!(!parser.get_flag("h"));
    assert_eq!(parser.get_leftovers(), Vec::<String>::new());
}

#[test]
fn bare_double_dash_is_dropped() {
    let parser = Clappers::build()
        .add_flags(vec!["h"])
        .parse_args(words(&["--", "a"]));
    assert_eq!(parser.get_leftovers(), words(&["a"]));
    assert_eq!(parser.get_multiple(""), Vec::<String>::new());
}

#[test]
fn declared_empty_alias_is_reachable() {
    let parser = Clappers::build()
        .add_singles(vec![""])
        .parse_args(words(&["--", "val"]));
    assert_eq!(parser.get_single(""), "val".to_string());
}

#[test]
fn last_single_value_wins() {
    let parser = Clappers::build()
        .add_singles(vec!["o|output"])
        .parse_args(words(&["-o", "a", "-o", "b"]));
    assert_eq!(parser.get_single("output"), "b".to_string());
}

#[test]
fn single_at_end_of_input_stays_unset() {
    let parser = Clappers::build()
        .add_singles(vec!["o|output"])
        .parse_args(words(&["-o"]));
    assert_eq!(parser.get_single("output"), "".to_string());
}

#[test]
fn multiple_with_empty_run_is_empty() {
    let parser = Clappers::build()
        .add_multiples(vec!["i|input"])
        .parse_args(words(&["-i", "-x"]));
    assert_eq!(parser.get_multiple("input"), Vec::<String>::new());
}

#[test]
fn redeclared_alias_maps_to_later_canonical_name() {
    let parser = Clappers::build()
        .add_flags(vec!["a|x", "b|x"])
        .parse_args(words(&["-x"]));
    assert!(parser.get_flag("b"));
    assert!(parser.get_flag("x"));
    assert!(!parser.get_flag("a"));
}

#[test]
fn flags_resolve_before_singles_and_multiples() {
    let parser = Clappers::build()
        .add_flags(vec!["n"])
        .add_singles(vec!["n"])
        .parse_args(words(&["-n", "v"]));
    assert!(parser.get_flag("n"));
    assert_eq!(parser.get_single("n"), "".to_string());
    assert_eq!(parser.get_leftovers(), words(&["v"]));
}

#[test]
fn unrecognized_option_vanishes_silently() {
    let parser = Clappers::build()
        .add_flags(vec!["h"])
        .parse_args(words(&["-x", "a"]));
    assert!(!parser.get_flag("h"));
    assert_eq!(parser.get_leftovers(), words(&["a"]));
}

#[test]
fn everything_undashed_lands_in_leftovers() {
    let parser = Clappers::build().parse_args(words(&["a", "b", "c"]));
    assert_eq!(parser.get_leftovers(), words(&["a", "b", "c"]));
}

#[test]
fn older_builder_names_behave_alike() {
    let parser = Clappers::build()
        .flags(vec!["h|help"])
        .singles(vec!["o|output"])
        .multiples(vec!["i|input"])
        .parse_args(words(&["-h", "-o", "out", "-i", "a"]));
    assert!(parser.get_flag("help"));
    assert_eq!(parser.get_single("o"), "out".to_string());
    assert_eq!(parser.get_multiple("i"), words(&["a"]));
}
