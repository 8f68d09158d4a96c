use drp_tag_adder::model::{drp_tag, FetchError, Instance, RunOutcome, TagPair, TierSelection, TransportError};
use drp_tag_adder::fetch::{Page, Reservation};
use drp_tag_adder::run::{Action, Event, Orchestrator, Phase};

fn inst(id: &str, tags: &[(&str, &str)]) -> Instance {
    Instance {
        instance_id: id.to_string(),
        tags: tags
            .iter()
            .map(|(k, v)| TagPair { key: k.to_string(), value: v.to_string() })
            .collect(),
    }
}

fn one_page(instances: Vec<Instance>) -> Page {
    Page { reservations: vec![Reservation { instances }] }
}

fn drive(m: Orchestrator, events: Vec<Event>) -> (Orchestrator, Vec<Action>) {
    let mut machine = m;
    let mut actions = Vec::new();
    for e in events {
        let (next, a) = machine.step(e);
        machine = next;
        actions.push(a);
    }
    (machine, actions)
}

fn finished(m: &Orchestrator) -> (RunOutcome, Option<FetchError>) {
    match &m.phase {
        Phase::Done { outcome, error } => (*outcome, *error),
        _ => panic!("run not finished"),
    }
}

fn apply_count(actions: &[Action]) -> usize {
    actions.iter().filter(|a| matches!(a, Action::Apply { .. })).count()
}

#[test]
fn three_instances_two_confirmed_with_gold() {
    let inventory = vec![
        inst("i-a", &[("Name", "alpha")]),
        inst("i-b", &[("Name", "beta"), ("DRPBackupPlan", "Bronze")]),
        inst("i-c", &[("Name", "gamma")]),
    ];
    let m = Orchestrator::new(drp_tag(TierSelection::Gold));
    let (m, actions) = drive(
        m,
        vec![
            Event::PageFetched(one_page(inventory)),
            Event::FetchComplete,
            Event::OperatorAnswer("y\n".to_string()),
            Event::ApplySucceeded("req-1".to_string()),
            Event::OperatorAnswer("Y".to_string()),
            Event::ApplySucceeded("req-2".to_string()),
        ],
    );
    let applies: Vec<(&String, &String, &String)> = actions
        .iter()
        .filter_map(|a| match a {
            Action::Apply { instance_id, key, value } => Some((instance_id, key, value)),
            _ => None,
        })
        .collect();
    assert_eq!(applies.len(), 2);
    assert_eq!(applies[0].0, "i-a");
    assert_eq!(applies[1].0, "i-c");
    for (_, key, value) in &applies {
        assert_eq!(*key, "DRPBackupPlan");
        assert_eq!(*value, "Gold");
    }
    let (outcome, error) = finished(&m);
    assert!(error.is_none());
    assert_eq!(outcome.seen, 3);
    assert_eq!(outcome.filtered, 2);
    assert_eq!(outcome.tagged, 2);
    assert_eq!(outcome.skipped, 0);
    assert_eq!(outcome.failed, 0);
}

#[test]
fn empty_inventory_ends_without_prompts() {
    let m = Orchestrator::new(drp_tag(TierSelection::Bronze));
    let (m, actions) = drive(m, vec![Event::FetchComplete]);
    assert_eq!(actions.len(), 1);
    assert!(matches!(actions[0], Action::Finish));
    let (outcome, error) = finished(&m);
    assert!(matches!(error, Some(FetchError::NoInstancesFound)));
    assert_eq!(outcome.tagged, 0);
    assert_eq!(outcome.seen, 0);
}

#[test]
fn page_failure_ends_run_without_mutation() {
    let m = Orchestrator::new(drp_tag(TierSelection::Bronze));
    let (m, actions) = drive(
        m,
        vec![
            Event::PageFetched(one_page(vec![inst("i-a", &[])])),
            Event::PageFailed(TransportError::Dispatch),
        ],
    );
    assert!(matches!(actions[0], Action::RequestPage));
    assert!(matches!(actions[1], Action::Finish));
    let (outcome, error) = finished(&m);
    assert!(matches!(error, Some(FetchError::Transport(TransportError::Dispatch))));
    assert_eq!(outcome.tagged, 0);
    assert_eq!(outcome.failed, 0);
}

#[test]
fn declining_every_prompt_tags_nothing() {
    let inventory = vec![inst("i-a", &[]), inst("i-b", &[])];
    let m = Orchestrator::new(drp_tag(TierSelection::Silver));
    let (m, actions) = drive(
        m,
        vec![
            Event::PageFetched(one_page(inventory)),
            Event::FetchComplete,
            Event::OperatorAnswer("n".to_string()),
            Event::OperatorAnswer("".to_string()),
        ],
    );
    assert_eq!(apply_count(&actions), 0);
    let (outcome, error) = finished(&m);
    assert!(error.is_none());
    assert_eq!(outcome.tagged, 0);
    assert_eq!(outcome.skipped, 2);
    assert_eq!(outcome.failed, 0);
}

#[test]
fn failed_mutation_does_not_stop_the_run() {
    let inventory = vec![inst("i-a", &[]), inst("i-b", &[]), inst("i-c", &[])];
    let m = Orchestrator::new(drp_tag(TierSelection::Gold));
    let (m, actions) = drive(
        m,
        vec![
            Event::PageFetched(one_page(inventory)),
            Event::FetchComplete,
            Event::OperatorAnswer("y".to_string()),
            Event::ApplySucceeded("req-1".to_string()),
            Event::OperatorAnswer("y".to_string()),
            Event::ApplyFailed,
            Event::OperatorAnswer("y".to_string()),
            Event::ApplySucceeded("req-3".to_string()),
        ],
    );
    assert_eq!(apply_count(&actions), 3);
    let (outcome, error) = finished(&m);
    assert!(error.is_none());
    assert_eq!(outcome.tagged, 2);
    assert_eq!(outcome.failed, 1);
    assert_eq!(outcome.skipped, 0);
    assert_eq!(outcome.confirmed, 3);
}

#[test]
fn mixed_answers_account_for_every_candidate() {
    let inventory = vec![
        inst("i-a", &[("Name", "alpha")]),
        inst("i-b", &[("DRPBackupPlan", "Gold")]),
        inst("i-c", &[]),
        inst("i-d", &[]),
    ];
    let m = Orchestrator::new(drp_tag(TierSelection::Bronze));
    let (m, actions) = drive(
        m,
        vec![
            Event::PageFetched(one_page(inventory)),
            Event::FetchComplete,
            Event::OperatorAnswer("no".to_string()),
            Event::OperatorAnswer("y".to_string()),
            Event::ApplyFailed,
            Event::OperatorAnswer("yes".to_string()),
            Event::ApplySucceeded("req-9".to_string()),
        ],
    );
    let prompts = actions.iter().filter(|a| matches!(a, Action::Prompt { .. })).count();
    assert_eq!(prompts, 3);
    let (outcome, error) = finished(&m);
    assert!(error.is_none());
    assert_eq!(outcome.seen, 4);
    assert_eq!(outcome.filtered, 3);
    assert_eq!(outcome.skipped, 1);
    assert_eq!(outcome.failed, 1);
    assert_eq!(outcome.tagged, 1);
}

#[test]
fn fully_tagged_inventory_needs_no_prompts() {
    let inventory = vec![
        inst("i-a", &[("DRPBackupPlan", "Gold")]),
        inst("i-b", &[("DRPBackupPlan", "Bronze")]),
    ];
    let m = Orchestrator::new(drp_tag(TierSelection::Gold));
    let (m, actions) = drive(
        m,
        vec![Event::PageFetched(one_page(inventory)), Event::FetchComplete],
    );
    assert!(matches!(actions[1], Action::Finish));
    let (outcome, error) = finished(&m);
    assert!(error.is_none());
    assert_eq!(outcome.seen, 2);
    assert_eq!(outcome.filtered, 0);
    assert_eq!(outcome.tagged, 0);
    assert_eq!(outcome.skipped, 0);
}

#[test]
fn pages_accumulate_across_fetches() {
    let m = Orchestrator::new(drp_tag(TierSelection::Gold));
    let (m, actions) = drive(
        m,
        vec![
            Event::PageFetched(one_page(vec![inst("i-1", &[]), inst("i-2", &[])])),
            Event::PageFetched(one_page(vec![inst("i-3", &[])])),
            Event::FetchComplete,
            Event::OperatorAnswer("n".to_string()),
            Event::OperatorAnswer("n".to_string()),
            Event::OperatorAnswer("n".to_string()),
        ],
    );
    assert!(matches!(actions[0], Action::RequestPage));
    assert!(matches!(actions[1], Action::RequestPage));
    let (outcome, _) = finished(&m);
    assert_eq!(outcome.seen, 3);
    assert_eq!(outcome.filtered, 3);
    assert_eq!(outcome.skipped, 3);
}

#[test]
fn prompt_shows_name_or_falls_back_to_id() {
    let inventory = vec![inst("i-named", &[("Name", "alpha")]), inst("i-anon", &[])];
    let m = Orchestrator::new(drp_tag(TierSelection::Gold));
    let (_, actions) = drive(
        m,
        vec![
            Event::PageFetched(one_page(inventory)),
            Event::FetchComplete,
            Event::OperatorAnswer("n".to_string()),
        ],
    );
    match &actions[1] {
        Action::Prompt { instance_id, label } => {
            assert_eq!(instance_id, "i-named");
            assert_eq!(label, "alpha");
        }
        _ => panic!("expected a prompt after the fetch completed"),
    }
    match &actions[2] {
        Action::Prompt { instance_id, label } => {
            assert_eq!(instance_id, "i-anon");
            assert_eq!(label, "i-anon");
        }
        _ => panic!("expected a prompt for the second candidate"),
    }
}
