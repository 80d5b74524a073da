use robotica_backend::classifier::{classify_date_with_config, Config};
use robotica_backend::conditions::{Boolean, Condition, ConditionOpcode, Expr};
use robotica_backend::dates::{Date, Weekday};
use robotica_backend::parser::BooleanParser;
use robotica_backend::classifier::get_fields;
use robotica_backend::classifier::get_tags;

fn sorted(mut v: Vec<String>) -> Vec<String> {
    v.sort();
    v
}

fn rule(add: &str) -> Config {
    Config {
        date: None,
        start: None,
        stop: None,
        week_day: None,
        day_of_week: None,
        if_cond: None,
        if_set: None,
        if_not_set: None,
        add: Some(vec![add.to_string()]),
        delete: None,
    }
}

#[test]
fn test_classify() {
    let config = vec![
        Config {
            start: Some(Date::from_ymd(2020, 1, 1).unwrap()),
            stop: Some(Date::from_ymd(2020, 12, 31).unwrap()),
            week_day: Some(true),
            ..rule("weekday")
        },
        Config {
            start: Some(Date::from_ymd(2020, 1, 1).unwrap()),
            stop: Some(Date::from_ymd(2020, 12, 31).unwrap()),
            day_of_week: Some(Weekday::Mon),
            ..rule("monday")
        },
    ];

    let date = Date::from_ymd(2019, 1, 7).unwrap();
    let tags = classify_date_with_config(&date, &config);
    assert_eq!(sorted(tags), Vec::<String>::new());

    let date = Date::from_ymd(2020, 1, 1).unwrap();
    let tags = classify_date_with_config(&date, &config);
    assert_eq!(sorted(tags), vec!["weekday".to_string()]);

    let date = Date::from_ymd(2020, 1, 4).unwrap();
    let tags = classify_date_with_config(&date, &config);
    assert_eq!(sorted(tags), Vec::<String>::new());

    let date = Date::from_ymd(2020, 1, 6).unwrap();
    let tags = classify_date_with_config(&date, &config);
    assert_eq!(sorted(tags), vec!["monday".to_string(), "weekday".to_string()]);

    let date = Date::from_ymd(2021, 1, 4).unwrap();
    let tags = classify_date_with_config(&date, &config);
    assert_eq!(sorted(tags), Vec::<String>::new());
}

#[test]
fn test_cond() {
    let conditions = vec![
        Boolean::Condition(Condition::Op(Box::new(Expr::Integer(10)), ConditionOpcode::Eq, Box::new(Expr::Integer(11)))),
        Boolean::Condition(Condition::In("classifications".to_string(), "classifications".to_string())),
    ];
    let config = vec![Config { if_cond: Some(conditions), ..rule("true") }];
    let date = Date::from_ymd(2020, 1, 1).unwrap();
    let tags = classify_date_with_config(&date, &config);
    assert_eq!(sorted(tags), Vec::<String>::new());
}

#[test]
fn classifier_rules_apply_in_order_and_delete() {
    let config = vec![
        rule("a"),
        Config { if_set: Some(vec!["a".to_string()]), ..rule("b") },
        Config { if_not_set: Some(vec!["b".to_string()]), ..rule("never") },
        Config { add: None, delete: Some(vec!["a".to_string()]), ..rule("x") },
        rule("b"),
    ];
    let date = Date::from_ymd(2020, 6, 1).unwrap();
    let tags = classify_date_with_config(&date, &config);
    assert_eq!(tags, vec!["b".to_string()]);
}

#[test]
fn classifier_conditions_see_the_date() {
    let fields = get_fields();
    let parser = BooleanParser::new();
    let cond = parser.parse(&fields, "day_of_week == 'sat'").unwrap();
    let config = vec![Config { if_cond: Some(vec![cond]), ..rule("saturday") }];
    let saturday = Date::from_ymd(2018, 12, 22).unwrap();
    let sunday = Date::from_ymd(2018, 12, 23).unwrap();
    assert_eq!(classify_date_with_config(&saturday, &config), vec!["saturday".to_string()]);
    assert_eq!(classify_date_with_config(&sunday, &config), Vec::<String>::new());
}

#[test]
fn classifier_weekend_rule() {
    let config = vec![Config { week_day: Some(false), ..rule("weekend") }];
    let saturday = Date::from_ymd(2018, 12, 22).unwrap();
    let monday = Date::from_ymd(2018, 12, 24).unwrap();
    assert_eq!(classify_date_with_config(&saturday, &config), vec!["weekend".to_string()]);
    assert!(classify_date_with_config(&monday, &config).is_empty());
}

#[test]
fn classifier_exact_date_rule() {
    let christmas = Date::from_ymd(2018, 12, 25).unwrap();
    let config = vec![Config { date: Some(christmas), ..rule("christmas") }];
    assert_eq!(classify_date_with_config(&christmas, &config), vec!["christmas".to_string()]);
    let boxing = Date::from_ymd(2018, 12, 26).unwrap();
    assert!(classify_date_with_config(&boxing, &config).is_empty());
}

#[test]
fn classifier_tags_of_three_days() {
    let config = vec![Config {
        day_of_week: None,
        date: None,
        start: None,
        stop: None,
        week_day: Some(true),
        if_cond: None,
        if_set: None,
        if_not_set: None,
        add: Some(vec!["workday".to_string()]),
        delete: None,
    }];
    // 2024-01-05 is a Friday.
    let friday = Date::from_ymd(2024, 1, 5).unwrap();
    let tags = get_tags(&config, friday);
    assert_eq!(tags.yesterday, vec!["workday".to_string()]);
    assert_eq!(tags.today, vec!["workday".to_string()]);
    assert!(tags.tomorrow.is_empty());
}

#[test]
fn classifier_tag_set_once() {
    let rule = |tag: &str| Config {
        day_of_week: None,
        date: None,
        start: None,
        stop: None,
        week_day: None,
        if_cond: None,
        if_set: None,
        if_not_set: None,
        add: Some(vec![tag.to_string(), tag.to_string()]),
        delete: None,
    };
    let config = vec![rule("x"), rule("y"), rule("x")];
    let tags = classify_date_with_config(&Date::from_ymd(2024, 1, 5).unwrap(), &config);
    assert_eq!(tags, vec!["x".to_string(), "y".to_string()]);
}
