use summer_web::rename::{apply_rename_rule, capitalize, parse_rename_rule, split_words, RenameRule};

#[test]
fn rename_rules_parse_from_serde_names() {
    assert_eq!(parse_rename_rule("lowercase"), Some(RenameRule::Lower));
    assert_eq!(parse_rename_rule("UPPERCASE"), Some(RenameRule::Upper));
    assert_eq!(parse_rename_rule("PascalCase"), Some(RenameRule::Pascal));
    assert_eq!(parse_rename_rule("camelCase"), Some(RenameRule::Camel));
    assert_eq!(parse_rename_rule("snake_case"), Some(RenameRule::Snake));
    assert_eq!(parse_rename_rule("SCREAMING_SNAKE_CASE"), Some(RenameRule::ScreamingSnake));
    assert_eq!(parse_rename_rule("kebab-case"), Some(RenameRule::Kebab));
    assert_eq!(parse_rename_rule("SCREAMING-KEBAB-CASE"), Some(RenameRule::ScreamingKebab));
    assert_eq!(parse_rename_rule("Camelcase"), None);
    assert_eq!(parse_rename_rule(""), None);
}

#[test]
fn split_words_on_separators_and_case() {
    assert_eq!(split_words("user_name"), vec!["user", "name"]);
    assert_eq!(split_words("userName"), vec!["user", "name"]);
    assert_eq!(split_words("UserName"), vec!["user", "name"]);
    assert_eq!(split_words("item-count 2"), vec!["item", "count", "2"]);
    assert_eq!(split_words("HTTPServer"), vec!["httpserver"]);
    assert_eq!(split_words("v2Api"), vec!["v2", "api"]);
    assert_eq!(split_words("__a__b__"), vec!["a", "b"]);
    assert!(split_words("").is_empty());
    assert!(split_words("_-_ ").is_empty());
}

#[test]
fn capitalize_first_letter() {
    assert_eq!(capitalize("name"), "Name");
    assert_eq!(capitalize("Name"), "Name");
    assert_eq!(capitalize(""), "");
    assert_eq!(capitalize("éa"), "éa");
    assert_eq!(capitalize("1st"), "1st");
}

#[test]
fn apply_rename_rules() {
    assert_eq!(apply_rename_rule("user_name", RenameRule::Camel), "userName");
    assert_eq!(apply_rename_rule("item_count", RenameRule::Kebab), "item-count");
    assert_eq!(apply_rename_rule("user_name", RenameRule::Pascal), "UserName");
    assert_eq!(apply_rename_rule("userName", RenameRule::Snake), "user_name");
    assert_eq!(apply_rename_rule("userName", RenameRule::ScreamingSnake), "USER_NAME");
    assert_eq!(apply_rename_rule("userName", RenameRule::ScreamingKebab), "USER-NAME");
    assert_eq!(apply_rename_rule("user_name", RenameRule::Lower), "username");
    assert_eq!(apply_rename_rule("user_name", RenameRule::Upper), "USERNAME");
    assert_eq!(apply_rename_rule("", RenameRule::Camel), "");
    assert_eq!(apply_rename_rule("display_name", RenameRule::Camel), "displayName");
}

#[test]
fn snake_and_kebab_renderings_keep_the_words() {
    let rules = [
        RenameRule::Lower,
        RenameRule::Upper,
        RenameRule::Pascal,
        RenameRule::Camel,
        RenameRule::Snake,
        RenameRule::ScreamingSnake,
        RenameRule::Kebab,
        RenameRule::ScreamingKebab,
    ];
    for name in ["userName", "HTTPServer", "item_count 2", "v2Api", ""] {
        let snake = apply_rename_rule(name, RenameRule::Snake);
        let kebab = apply_rename_rule(name, RenameRule::Kebab);
        for rule in rules {
            assert_eq!(apply_rename_rule(&snake, rule), apply_rename_rule(name, rule));
            assert_eq!(apply_rename_rule(&kebab, rule), apply_rename_rule(name, rule));
        }
    }
    assert_eq!(apply_rename_rule("userName", RenameRule::Snake), "user_name");
    assert_eq!(apply_rename_rule("user_name", RenameRule::Snake), "user_name");
}
