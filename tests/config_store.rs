use rustroika::config::{
    loaded_tree, resolve, resolve_run, stored_count_at, Config, ConfigError, Defaults,
    MissingParameter, ResolvedRun,
};
use rustroika::config;
use rustroika::expr::ExprError;
use rustroika::tree::{
    get, get_int, path_keys, remove, remove_config_value, set_value, ConfigValue, Entry, TreeError,
};

fn sample() -> ConfigValue {
    let mut t = ConfigValue::empty();
    config::set(&mut t, "defaults.trips-per-week", "8").unwrap();
    config::set(&mut t, "defaults.monthly-cost", "3070").unwrap();
    t
}

#[test]
fn set_then_get_round_trip() {
    let mut t = ConfigValue::empty();
    assert_eq!(config::set(&mut t, "defaults.ticket-price", "63"), Ok(()));
    assert_eq!(get_int(&t, "defaults.ticket-price"), Some(63));
    assert_eq!(get(&t, "defaults.ticket-price"), Some(&ConfigValue::Int(63)));
}

#[test]
fn set_evaluates_expression() {
    let mut t = ConfigValue::empty();
    assert_eq!(config::set(&mut t, "defaults.trips-per-week", "(6+2)*3"), Ok(()));
    assert_eq!(get_int(&t, "defaults.trips-per-week"), Some(24));
}

#[test]
fn set_rejects_bad_expression() {
    let mut t = sample();
    let before = sample();
    assert_eq!(
        config::set(&mut t, "defaults.ticket-price", "6+"),
        Err(ConfigError::Expression(ExprError::InvalidExpression))
    );
    assert_eq!(
        config::set(&mut t, "defaults.ticket-price", "1-2"),
        Err(ConfigError::Expression(ExprError::NegativeValue))
    );
    assert_eq!(t, before);
}

#[test]
fn set_overwrites_subtree() {
    let mut t = sample();
    assert_eq!(config::set(&mut t, "defaults", "5"), Ok(()));
    assert_eq!(get_int(&t, "defaults"), Some(5));
    assert_eq!(get(&t, "defaults.monthly-cost"), None);
}

#[test]
fn set_through_integer_fails() {
    let mut t = sample();
    let before = sample();
    assert_eq!(config::set(&mut t, "defaults.monthly-cost.x", "1"), Err(ConfigError::NotATable));
    assert_eq!(t, before);
    assert_eq!(set_value(&mut t, "defaults.trips-per-week.y", 1), Err(TreeError::NotATable));
}

#[test]
fn set_keeps_other_keys() {
    let mut t = sample();
    config::set(&mut t, "defaults.ticket-price", "63").unwrap();
    config::set(&mut t, "other.deep.key", "1").unwrap();
    assert_eq!(get_int(&t, "defaults.trips-per-week"), Some(8));
    assert_eq!(get_int(&t, "defaults.monthly-cost"), Some(3070));
    assert_eq!(get_int(&t, "defaults.ticket-price"), Some(63));
    assert_eq!(get_int(&t, "other.deep.key"), Some(1));
}

#[test]
fn remove_missing_leaves_tree() {
    let mut t = sample();
    let before = sample();
    assert!(!remove(&mut t, "defaults.ticket-price"));
    assert!(!remove(&mut t, "nothing.here"));
    assert!(!remove(&mut t, "defaults.monthly-cost.deeper"));
    assert_eq!(t, before);
}

#[test]
fn remove_existing_leaf() {
    let mut t = sample();
    assert!(remove(&mut t, "defaults.monthly-cost"));
    assert_eq!(get(&t, "defaults.monthly-cost"), None);
    assert_eq!(get_int(&t, "defaults.trips-per-week"), Some(8));
    assert!(remove(&mut t, "defaults.trips-per-week"));
    assert_eq!(get(&t, "defaults"), Some(&ConfigValue::Table(vec![])));
}

#[test]
fn get_through_integer_is_none() {
    let t = sample();
    assert_eq!(get(&t, "defaults.monthly-cost.x"), None);
    assert_eq!(get(&t, "missing"), None);
}

#[test]
fn path_keys_split_on_dots() {
    assert_eq!(path_keys("a.b.c"), vec!["a".to_string(), "b".to_string(), "c".to_string()]);
    assert_eq!(path_keys("plain"), vec!["plain".to_string()]);
    assert_eq!(path_keys(""), vec![String::new()]);
}

#[test]
fn explicit_value_wins() {
    let t = sample();
    assert_eq!(resolve(Some(5), &t, "defaults.trips-per-week"), Ok(5));
    assert_eq!(resolve(Some(5), &ConfigValue::empty(), "defaults.trips-per-week"), Ok(5));
}

#[test]
fn stored_value_used_when_not_given() {
    let t = sample();
    assert_eq!(resolve(None, &t, "defaults.monthly-cost"), Ok(3070));
    assert_eq!(stored_count_at(&t, "defaults.trips-per-week"), Some(8));
}

#[test]
fn missing_parameter_is_reported() {
    let t = sample();
    assert_eq!(
        resolve(None, &t, "defaults.ticket-price"),
        Err(MissingParameter { parameter_name: "defaults.ticket-price".to_string() })
    );
}

#[test]
fn stored_value_too_large_is_missing() {
    let t = ConfigValue::Table(vec![Entry {
        key: "defaults".to_string(),
        value: ConfigValue::Table(vec![Entry {
            key: "ticket-price".to_string(),
            value: ConfigValue::Int(1 << 40),
        }]),
    }]);
    assert_eq!(stored_count_at(&t, "defaults.ticket-price"), None);
}

#[test]
fn resolve_run_merges() {
    let t = sample();
    assert_eq!(
        resolve_run(None, Some(2000), Some(63), &t),
        Ok(ResolvedRun { trips_per_week: 8, monthly_cost: 2000, ticket_price: 63 })
    );
    assert_eq!(
        resolve_run(None, None, None, &t),
        Err(MissingParameter { parameter_name: "defaults.ticket-price".to_string() })
    );
}

#[test]
fn config_load_reads_defaults() {
    let t = sample();
    let c = Config::load(&t);
    assert_eq!(
        c.get_defaults(),
        Defaults { trips_per_week: Some(8), monthly_cost: Some(3070), ticket_price: None }
    );
    let empty = Config::load(&ConfigValue::empty());
    assert_eq!(empty.defaults, None);
    assert_eq!(empty.get_defaults(), Defaults::none());
}

#[test]
fn missing_file_gives_empty_tree() {
    assert_eq!(loaded_tree(None), ConfigValue::empty());
    assert_eq!(loaded_tree(Some(sample())), sample());
}

#[test]
fn remove_by_keys() {
    let mut t = sample();
    assert!(!remove_config_value(&mut t, &vec![]));
    assert!(!remove_config_value(&mut t, &path_keys("defaults.ticket-price")));
    assert_eq!(t, sample());
    assert!(remove_config_value(&mut t, &path_keys("defaults.trips-per-week")));
    assert_eq!(get(&t, "defaults.trips-per-week"), None);
    assert_eq!(get_int(&t, "defaults.monthly-cost"), Some(3070));
}

#[test]
fn integer_root_refuses_set() {
    let mut t = ConfigValue::Int(3);
    assert_eq!(config::set(&mut t, "defaults.ticket-price", "63"), Err(ConfigError::NotATable));
    assert_eq!(t, ConfigValue::Int(3));
    assert_eq!(Config::load(&t).defaults, None);
}

#[test]
fn defaults_not_a_table() {
    let mut t = ConfigValue::empty();
    config::set(&mut t, "defaults", "7").unwrap();
    assert_eq!(Config::load(&t).defaults, None);
    assert_eq!(resolve(None, &t, "defaults.trips-per-week").is_err(), true);
}

#[test]
fn resolve_run_names_first_missing() {
    let empty = ConfigValue::empty();
    assert_eq!(
        resolve_run(None, Some(3070), Some(63), &empty),
        Err(MissingParameter { parameter_name: "defaults.trips-per-week".to_string() })
    );
    let mut t = ConfigValue::empty();
    config::set(&mut t, "defaults.monthly-cost", "3070").unwrap();
    config::set(&mut t, "defaults.ticket-price", "63").unwrap();
    assert_eq!(
        resolve_run(None, None, None, &t),
        Err(MissingParameter { parameter_name: "defaults.trips-per-week".to_string() })
    );
    assert_eq!(
        resolve_run(Some(8), None, None, &empty),
        Err(MissingParameter { parameter_name: "defaults.monthly-cost".to_string() })
    );
}

#[test]
fn remove_keeps_emptied_parent() {
    let mut t = ConfigValue::empty();
    config::set(&mut t, "defaults.ticket-price", "63").unwrap();
    assert!(remove(&mut t, "defaults.ticket-price"));
    let expected = ConfigValue::Table(vec![Entry {
        key: "defaults".to_string(),
        value: ConfigValue::Table(vec![]),
    }]);
    assert_eq!(t, expected);
}

#[test]
fn path_keys_edge_dots() {
    let s = |v: &[&str]| v.iter().map(|x| x.to_string()).collect::<Vec<String>>();
    assert_eq!(path_keys(".a..b."), s(&["", "a", "", "b", ""]));
    assert_eq!(path_keys("тариф.цена"), s(&["тариф", "цена"]));
    assert_eq!(path_keys("."), s(&["", ""]));
}
