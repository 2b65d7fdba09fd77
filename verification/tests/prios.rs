use nada::prios::{
    parse_raw_priority, parse_scheduler_hint, priority_from_dictionary,
    scheduler_hint_from_dictionary, BareItem, Dictionary, Member, Priority,
};

fn bytes(s: &str) -> Option<Vec<u8>> {
    Some(s.as_bytes().to_vec())
}

#[test]
fn scheduler_hint_absent_returns_none() {
    assert_eq!(parse_scheduler_hint(None), None);
}

#[test]
fn scheduler_hint_empty_returns_none() {
    assert_eq!(parse_scheduler_hint(Some(Vec::new())), None);
}

#[test]
fn scheduler_hint_no_sched_field_returns_none() {
    assert_eq!(parse_scheduler_hint(bytes("u=0")), None);
    assert_eq!(parse_scheduler_hint(bytes("i")), None);
    assert_eq!(parse_scheduler_hint(bytes("u=4, i")), None);
}

#[test]
fn scheduler_hint() {
    assert_eq!(
        parse_scheduler_hint(bytes("u=4, i, sched=rr")),
        Some("rr".to_owned())
    );

    assert_eq!(
        parse_scheduler_hint(bytes("u=4, i, sched=roundrobin")),
        Some("roundrobin".to_owned())
    );
}

#[test]
fn scheduler_hint_sched_only() {
    assert_eq!(
        parse_scheduler_hint(bytes("sched=ll")),
        Some("ll".to_owned())
    );
}

#[test]
fn scheduler_hint_non_token_value_returns_none() {
    // SFV string values ("...") are not tokens; should return None.
    assert_eq!(parse_scheduler_hint(bytes("sched=\"rr\"")), None);
}

#[test]
fn returns_defaults_on_none() {
    let prio = parse_raw_priority(None).expect("Default priority");
    assert_eq!(prio, Priority::default());
}

#[test]
fn returns_defaults_on_empty() {
    let prio =
        parse_raw_priority(Some(Vec::new())).expect("Default priority");
    assert_eq!(prio, Priority::default());
}

#[test]
fn parses_urgency_only() {
    let prio = parse_raw_priority(bytes("u=5")).expect("Urgency of 5");
    assert_eq!(prio, Priority::new(5, false));
}

#[test]
fn parses_incremental_only() {
    let prio = parse_raw_priority(bytes("i"))
        .expect("Default prio with incremental flag set");
    assert_eq!(prio, Priority::new(3, true));
}

#[test]
fn parses_both_fields() {
    let prio = parse_raw_priority(bytes("u=2, i"))
        .expect("Parses both EPS parameters");
    assert_eq!(prio, Priority::new(2, true));
}

#[test]
fn parses_both_fields_despite_sched() {
    let prio = parse_raw_priority(bytes("u=2, i, sched=ecf"))
        .expect("Parses both EPS parameters");
    assert_eq!(prio, Priority::new(2, true));
}

#[test]
fn parses_both_fields_starting_with_sched() {
    let prio = parse_raw_priority(bytes("sched=ecf,i, u=2"))
        .expect("Parses both EPS parameters");
    assert_eq!(prio, Priority::new(2, true));
}

#[test]
fn clamps_urgency_high() {
    let prio =
        parse_raw_priority(bytes("u=10, i")).expect("Clamps a high urgency");
    assert_eq!(prio, Priority::new(7, true));
}

#[test]
fn clamps_urgency_low() {
    let prio =
        parse_raw_priority(bytes("u=-5")).expect("Clamps a low urgency");
    assert_eq!(prio, Priority::new(0, false));
}

#[test]
fn invalid_types_fall_back_to_defaults() {
    let prio = parse_raw_priority(bytes("u=\"x\""))
        .expect("Non-integer urgency falls back to default");
    assert_eq!(prio, Priority::default());

    let prio = parse_raw_priority(bytes("i=5"))
        .expect("Non-boolean incremental falls back to default");
    assert_eq!(prio, Priority::default());
}

#[test]
fn malformed_dict_falls_back_to_defaults() {
    let prio = parse_raw_priority(bytes("u"))
        .expect("Malformed structured dictionary falls back to default");
    assert_eq!(prio, Priority::default());
}

#[test]
fn parses_stream_aware_ecf_with_priority() {
    let raw = bytes("u=0,i,sched=sa-ecf");

    let prio = parse_raw_priority(raw.clone()).expect("Parses priority");
    assert_eq!(prio, Priority::new(0, true));

    let sched = parse_scheduler_hint(raw);
    assert_eq!(sched, Some("sa-ecf".to_owned()));
}

#[test]
fn members_decide_the_priority() {
    let dict = Some(Dictionary {
        members: vec![
            ("u".to_owned(), Member::Item(BareItem::Integer(6))),
            ("i".to_owned(), Member::Item(BareItem::Boolean(true))),
            ("sched".to_owned(), Member::Item(BareItem::Token("rr".to_owned()))),
        ],
    });
    assert_eq!(priority_from_dictionary(&dict), Priority::new(6, true));
    assert_eq!(scheduler_hint_from_dictionary(&dict), Some("rr".to_owned()));
}

#[test]
fn lists_and_other_types_are_ignored() {
    let dict = Some(Dictionary {
        members: vec![
            ("u".to_owned(), Member::InnerList),
            ("i".to_owned(), Member::InnerList),
            ("sched".to_owned(), Member::Item(BareItem::String)),
        ],
    });
    assert_eq!(priority_from_dictionary(&dict), Priority::default());
    assert_eq!(scheduler_hint_from_dictionary(&dict), None);
    assert_eq!(priority_from_dictionary(&None), Priority::default());
    assert_eq!(scheduler_hint_from_dictionary(&None), None);
}

#[test]
fn urgencies_stay_in_range() {
    for (text, urgency) in [("u=0", 0), ("u=7", 7), ("u=8", 7), ("u=-1", 0), ("u=999999999999999", 7)] {
        assert_eq!(parse_raw_priority(bytes(text)), Some(Priority::new(urgency, false)));
    }
}

#[test]
fn other_members_change_nothing() {
    assert_eq!(parse_raw_priority(bytes("a=1, u=2, b, i, c=x")), parse_raw_priority(bytes("u=2, i")));
    assert_eq!(parse_scheduler_hint(bytes("a=1, sched=ecf, b")), Some("ecf".to_owned()));
}

#[test]
fn last_of_two_members_counts() {
    assert_eq!(parse_raw_priority(bytes("u=2, u=5")), Some(Priority::new(5, false)));
}

#[test]
fn inner_lists_are_no_values() {
    assert_eq!(parse_raw_priority(bytes("u=(1 2), i=(a)")), Some(Priority::default()));
    assert_eq!(parse_scheduler_hint(bytes("sched=(rr)")), None);
    assert_eq!(parse_raw_priority(bytes("u=1.5, i=?0")), Some(Priority::default()));
}
