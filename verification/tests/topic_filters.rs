use rust_mqtt_client_tui::mqtt::topic::{filter_matches, split_levels, subscription_receives};

#[test]
fn levels_are_split_at_slashes() {
    assert_eq!(split_levels("a/b/c"), vec!["a", "b", "c"]);
    assert_eq!(split_levels("/a/"), vec!["", "a", ""]);
    assert_eq!(split_levels(""), vec![""]);
    assert_eq!(split_levels("sport"), vec!["sport"]);
}

#[test]
fn exact_filters_match_only_their_topic() {
    assert!(filter_matches("sport/tennis", "sport/tennis"));
    assert!(!filter_matches("sport/tennis", "sport/tennis/player1"));
    assert!(!filter_matches("sport/tennis", "sport"));
    assert!(!filter_matches("sport/tennis", "Sport/tennis"));
}

#[test]
fn multi_level_wildcard() {
    assert!(filter_matches("sport/#", "sport/tennis/player1"));
    assert!(filter_matches("sport/#", "sport/tennis"));
    assert!(filter_matches("sport/#", "sport"));
    assert!(filter_matches("#", "anything/at/all"));
    assert!(!filter_matches("sport/#", "sports"));
    assert!(!filter_matches("sport/#/x", "sport/a/x"));
}

#[test]
fn single_level_wildcard() {
    assert!(filter_matches("sport/+", "sport/tennis"));
    assert!(!filter_matches("sport/+", "sport/tennis/player1"));
    assert!(!filter_matches("sport/+", "sport"));
    assert!(filter_matches("sport/+", "sport/"));
    assert!(filter_matches("+/+", "/finance"));
    assert!(filter_matches("+/tennis/#", "sport/tennis/player1"));
}

#[test]
fn dollar_topics_escape_leading_wildcards() {
    assert!(!filter_matches("#", "$SYS/uptime"));
    assert!(!filter_matches("+/uptime", "$SYS/uptime"));
    assert!(filter_matches("$SYS/#", "$SYS/uptime"));
    assert!(filter_matches("$SYS/+", "$SYS/uptime"));
}

#[test]
fn a_subscription_receives_its_own_topic() {
    let f = String::from("#/a");
    assert!(!filter_matches("#/a", "#/a"));
    assert!(subscription_receives(&f, &String::from("#/a")));
    assert!(!subscription_receives(&f, &String::from("x/a")));
    assert!(subscription_receives(&String::from("s/#"), &String::from("s/t")));
}
