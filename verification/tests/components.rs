use drp_tag_adder::confirm::interpret_answer;
use drp_tag_adder::fetch::{fetch_all, Page, PageOutcome, Reservation};
use drp_tag_adder::model::{drp_tag, FetchError, Instance, TagPair, TierSelection, TransportError};
use drp_tag_adder::sort::{sort_names, str_leq};
use drp_tag_adder::tags::{
    display_label, display_name, instance_has_tag_key, instance_names, partition_by_tag_presence,
};

fn inst(id: &str, tags: &[(&str, &str)]) -> Instance {
    Instance {
        instance_id: id.to_string(),
        tags: tags
            .iter()
            .map(|(k, v)| TagPair { key: k.to_string(), value: v.to_string() })
            .collect(),
    }
}

fn ids(instances: &[Instance]) -> Vec<String> {
    instances.iter().map(|i| i.instance_id.clone()).collect()
}

fn sample_inventory() -> Vec<Instance> {
    vec![
        inst("i-a", &[("Name", "alpha")]),
        inst("i-b", &[("Name", "beta"), ("DRPBackupPlan", "Bronze")]),
        inst("i-c", &[]),
    ]
}

#[test]
fn filter_absent_keeps_untagged() {
    let tag = drp_tag(TierSelection::Gold);
    let eligible = partition_by_tag_presence(sample_inventory(), &tag, false);
    assert_eq!(ids(&eligible), vec!["i-a".to_string(), "i-c".to_string()]);
}

#[test]
fn filter_present_keeps_tagged() {
    let tag = drp_tag(TierSelection::Gold);
    let carrying = partition_by_tag_presence(sample_inventory(), &tag, true);
    assert_eq!(ids(&carrying), vec!["i-b".to_string()]);
}

#[test]
fn filter_partitions_whole_inventory() {
    let tag = drp_tag(TierSelection::Bronze);
    let with = partition_by_tag_presence(sample_inventory(), &tag, true);
    let without = partition_by_tag_presence(sample_inventory(), &tag, false);
    assert_eq!(with.len() + without.len(), sample_inventory().len());
    for i in &with {
        assert!(!without.iter().any(|j| j.instance_id == i.instance_id));
    }
}

#[test]
fn filter_twice_is_filter_once() {
    let tag = drp_tag(TierSelection::Silver);
    let once = partition_by_tag_presence(sample_inventory(), &tag, false);
    let expected = ids(&once);
    let twice = partition_by_tag_presence(once, &tag, false);
    assert_eq!(ids(&twice), expected);
}

#[test]
fn zero_tag_instance_is_eligible() {
    let bare = inst("i-bare", &[]);
    let key = "DRPBackupPlan".to_string();
    assert!(!instance_has_tag_key(&bare, &key));
    let tag = drp_tag(TierSelection::Gold);
    let eligible = partition_by_tag_presence(vec![bare], &tag, false);
    assert_eq!(eligible.len(), 1);
}

#[test]
fn display_name_resolves_first_name_tag() {
    let two_names = inst("i-x", &[("Name", "first"), ("Name", "second")]);
    assert_eq!(display_name(&two_names), Some("first".to_string()));
}

#[test]
fn display_name_missing_falls_back_to_id() {
    let unnamed = inst("i-raw", &[("Env", "prod")]);
    assert_eq!(display_name(&unnamed), None);
    assert_eq!(display_label(&unnamed), "i-raw".to_string());
}

#[test]
fn instance_names_collects_every_name_value() {
    let names = instance_names(&sample_inventory());
    assert_eq!(names, vec!["alpha".to_string(), "beta".to_string()]);
}

#[test]
fn fetch_all_flattens_pages_in_order() {
    let pages = vec![
        PageOutcome::Fetched(Page {
            reservations: vec![
                Reservation { instances: vec![inst("i-1", &[]), inst("i-2", &[])] },
                Reservation { instances: vec![inst("i-3", &[])] },
            ],
        }),
        PageOutcome::Fetched(Page { reservations: vec![] }),
        PageOutcome::Fetched(Page {
            reservations: vec![Reservation {
                instances: vec![inst("i-4", &[]), inst("i-5", &[]), inst("i-6", &[])],
            }],
        }),
    ];
    match fetch_all(pages) {
        Ok(all) => {
            assert_eq!(all.len(), 6);
            assert_eq!(
                ids(&all),
                vec!["i-1", "i-2", "i-3", "i-4", "i-5", "i-6"]
                    .into_iter()
                    .map(String::from)
                    .collect::<Vec<_>>()
            );
        }
        Err(_) => panic!("complete fetch must succeed"),
    }
}

#[test]
fn fetch_all_empty_is_no_instances_found() {
    assert!(matches!(fetch_all(vec![]), Err(FetchError::NoInstancesFound)));
    let only_empty = vec![PageOutcome::Fetched(Page { reservations: vec![] })];
    assert!(matches!(fetch_all(only_empty), Err(FetchError::NoInstancesFound)));
}

#[test]
fn fetch_all_aborts_on_first_page_failure() {
    let pages = vec![
        PageOutcome::Fetched(Page {
            reservations: vec![Reservation { instances: vec![inst("i-1", &[])] }],
        }),
        PageOutcome::Failed(TransportError::Timeout),
        PageOutcome::Fetched(Page {
            reservations: vec![Reservation { instances: vec![inst("i-2", &[])] }],
        }),
    ];
    assert!(matches!(
        fetch_all(pages),
        Err(FetchError::Transport(TransportError::Timeout))
    ));
}

#[test]
fn fetch_all_reports_earliest_failure() {
    let pages = vec![
        PageOutcome::Failed(TransportError::Dispatch),
        PageOutcome::Failed(TransportError::Service),
    ];
    assert!(matches!(
        fetch_all(pages),
        Err(FetchError::Transport(TransportError::Dispatch))
    ));
}

#[test]
fn confirmation_accepts_only_y_prefix() {
    assert!(interpret_answer("y"));
    assert!(interpret_answer("Y"));
    assert!(interpret_answer("yes\n"));
    assert!(interpret_answer("Yep"));
    assert!(!interpret_answer(""));
    assert!(!interpret_answer("n"));
    assert!(!interpret_answer("N"));
    assert!(!interpret_answer(" y"));
    assert!(!interpret_answer("ok"));
}

#[test]
fn tier_parse_and_render() {
    assert_eq!(TierSelection::parse(&"Gold".to_string()), Some(TierSelection::Gold));
    assert_eq!(TierSelection::parse(&"Silver".to_string()), Some(TierSelection::Silver));
    assert_eq!(TierSelection::parse(&"Bronze".to_string()), Some(TierSelection::Bronze));
    assert_eq!(TierSelection::parse(&"gold".to_string()), None);
    assert_eq!(TierSelection::parse(&"".to_string()), None);
    assert_eq!(TierSelection::Gold.value_string(), "Gold".to_string());
    assert_eq!(TierSelection::default(), TierSelection::Bronze);
}

#[test]
fn drp_tag_carries_fixed_key_and_tier() {
    let tag = drp_tag(TierSelection::Silver);
    assert_eq!(tag.key, "DRPBackupPlan".to_string());
    assert_eq!(tag.value, "Silver".to_string());
}

#[test]
fn names_sort_lexicographically_by_code_point() {
    let sorted = sort_names(vec![
        "beta".to_string(),
        "alpha".to_string(),
        "Alpha".to_string(),
        "alpha".to_string(),
    ]);
    assert_eq!(
        sorted,
        vec!["Alpha".to_string(), "alpha".to_string(), "alpha".to_string(), "beta".to_string()]
    );
}

#[test]
fn str_leq_orders_prefixes_first() {
    assert!(str_leq(&"abc".to_string(), &"abcd".to_string()));
    assert!(!str_leq(&"abcd".to_string(), &"abc".to_string()));
    assert!(str_leq(&"".to_string(), &"a".to_string()));
    assert!(str_leq(&"same".to_string(), &"same".to_string()));
}
