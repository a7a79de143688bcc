use minigrep::config::{run_search, Config, ConfigError};
use minigrep::menu::{make_menu, Appetizer};

fn tokens(args: &[&str]) -> Vec<String> {
    args.iter().map(|a| a.to_string()).collect()
}

#[test]
fn too_few_arguments_are_rejected() {
    let args = tokens(&["prog"]);
    let resolved = Config::new(&args, None);
    assert_eq!(resolved.err(), Some(ConfigError::InsufficientArguments));

    let args = tokens(&["prog", "query-only"]);
    let resolved = Config::new(&args, Some("set".to_string()));
    assert_eq!(resolved.err(), Some(ConfigError::InsufficientArguments));
}

#[test]
fn positional_tokens_are_taken_in_order() {
    let args = tokens(&["prog", "to", "poem.txt"]);
    let config = Config::new(&args, None).unwrap();
    assert_eq!(config.query, "to");
    assert_eq!(config.filename, "poem.txt");
    assert!(config.case_sensitive);
}

#[test]
fn override_presence_flips_sensitivity_off() {
    let args = tokens(&["prog", "to", "poem.txt"]);

    let config = Config::new(&args, Some(String::new())).unwrap();
    assert!(!config.case_sensitive);

    let config = Config::new(&args, Some("1".to_string())).unwrap();
    assert!(!config.case_sensitive);

    let config = Config::new(&args, None).unwrap();
    assert!(config.case_sensitive);
}

#[test]
fn run_search_selects_the_variant() {
    let contents = "Rust:\nsafe, fast, productive.\nPick three.\nTrust me.";
    let args = tokens(&["prog", "rUsT", "poem.txt"]);

    let sensitive = Config::new(&args, None).unwrap();
    assert_eq!(run_search(&sensitive, contents), Vec::<&str>::new());

    let insensitive = Config::new(&args, Some(String::new())).unwrap();
    assert_eq!(run_search(&insensitive, contents), vec!["Rust:", "Trust me."]);
}

#[test]
fn menu_carries_the_bread() {
    let menu = make_menu("Rye");
    assert_eq!(menu.toast, "Rye");
}

#[test]
fn appetizers_compare_by_variant() {
    assert_eq!(Appetizer::Soup, Appetizer::Soup);
    assert_ne!(Appetizer::Soup, Appetizer::Salad);
}
