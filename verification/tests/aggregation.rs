use status_webhook::aggregate::{aggregate, monitored_pods, tally};
use status_webhook::pod::{Condition, Pod, WEBHOOK_ANNOTATION};
use status_webhook::state::CycleState;
use status_webhook::status::PodStatus;

fn condition(type_: &str, status: &str) -> Condition {
    Condition { type_: type_.to_string(), status: status.to_string() }
}

fn watched(url: &str, conditions: Option<Vec<Condition>>) -> Pod {
    Pod {
        annotations: Some(vec![(WEBHOOK_ANNOTATION.to_string(), url.to_string())]),
        conditions,
    }
}

fn unwatched(conditions: Option<Vec<Condition>>) -> Pod {
    Pod { annotations: Some(vec![("app".to_string(), "web".to_string())]), conditions }
}

fn ready() -> Option<Vec<Condition>> {
    Some(vec![condition("Initialized", "True"), condition("Ready", "True")])
}

fn unready() -> Option<Vec<Condition>> {
    Some(vec![condition("Initialized", "True"), condition("Ready", "False")])
}

fn sorted_entries(state: &CycleState) -> Vec<(String, PodStatus)> {
    let mut entries = Vec::new();
    let mut index = 0;
    while let Some((target, status)) = state.entry(index) {
        entries.push((target.clone(), status));
        index += 1;
    }
    entries.sort_by(|a, b| a.0.cmp(&b.0));
    entries
}

#[test]
fn ready_pod_and_pod_without_report_make_target_up() {
    let pods = vec![watched("http://hook/a", ready()), watched("http://hook/a", None)];
    let state = aggregate(Some(pods));
    assert_eq!(state.len(), 1);
    assert_eq!(state.get("http://hook/a"), Some(PodStatus::Up));
}

#[test]
fn pod_without_report_then_ready_pod_make_target_up() {
    let pods = vec![watched("http://hook/a", None), watched("http://hook/a", ready())];
    let state = aggregate(Some(pods));
    assert_eq!(state.len(), 1);
    assert_eq!(state.get("http://hook/a"), Some(PodStatus::Up));
}

#[test]
fn report_without_ready_condition_makes_target_down() {
    let conditions = Some(vec![condition("Initialized", "True"), condition("PodScheduled", "True")]);
    let state = aggregate(Some(vec![watched("http://hook/a", conditions)]));
    assert_eq!(state.len(), 1);
    assert_eq!(state.get("http://hook/a"), Some(PodStatus::Down));
}

#[test]
fn empty_report_makes_target_down() {
    let state = aggregate(Some(vec![watched("http://hook/a", Some(Vec::new()))]));
    assert_eq!(state.get("http://hook/a"), Some(PodStatus::Down));
}

#[test]
fn ready_condition_that_is_not_true_makes_target_down() {
    for status in ["False", "Unknown", "true", "TRUE", "", "True "] {
        let conditions = Some(vec![condition("Ready", status)]);
        let state = aggregate(Some(vec![watched("http://hook/a", conditions)]));
        assert_eq!(state.get("http://hook/a"), Some(PodStatus::Down), "status {status:?}");
    }
}

#[test]
fn condition_of_another_name_that_is_true_makes_target_down() {
    for name in ["ready", "READY", "ContainersReady", "Ready ", ""] {
        let conditions = Some(vec![condition(name, "True")]);
        let state = aggregate(Some(vec![watched("http://hook/a", conditions)]));
        assert_eq!(state.get("http://hook/a"), Some(PodStatus::Down), "name {name:?}");
    }
}

#[test]
fn failed_listing_gives_empty_state() {
    let state = aggregate(None);
    assert!(state.is_empty());
    assert_eq!(state.len(), 0);
    assert!(state.entry(0).is_none());
}

#[test]
fn listing_without_pods_gives_empty_state() {
    let state = aggregate(Some(Vec::new()));
    assert!(state.is_empty());
    assert_eq!(state.len(), 0);
}

#[test]
fn pods_without_the_annotation_add_no_target() {
    let pods = vec![
        unwatched(ready()),
        Pod { annotations: None, conditions: ready() },
        Pod { annotations: Some(Vec::new()), conditions: ready() },
    ];
    let state = aggregate(Some(pods));
    assert!(state.is_empty());
}

#[test]
fn pods_without_the_annotation_change_no_status() {
    let with = vec![
        unwatched(ready()),
        watched("http://hook/a", unready()),
        Pod { annotations: None, conditions: ready() },
        watched("http://hook/b", ready()),
        unwatched(None),
    ];
    let without = vec![watched("http://hook/a", unready()), watched("http://hook/b", ready())];
    let expected = vec![
        ("http://hook/a".to_string(), PodStatus::Down),
        ("http://hook/b".to_string(), PodStatus::Up),
    ];
    assert_eq!(sorted_entries(&aggregate(Some(with))), expected);
    assert_eq!(sorted_entries(&aggregate(Some(without))), expected);
}

#[test]
fn annotation_key_must_match_exactly() {
    let near = Pod {
        annotations: Some(vec![
            ("anotherland/status-webhooks".to_string(), "http://hook/a".to_string()),
            ("Anotherland/status-webhook".to_string(), "http://hook/b".to_string()),
            ("status-webhook".to_string(), "http://hook/c".to_string()),
        ]),
        conditions: ready(),
    };
    assert!(!near.is_monitored());
    assert!(aggregate(Some(vec![near])).is_empty());
}

#[test]
fn every_target_has_one_status() {
    let pods = vec![
        watched("http://hook/a", ready()),
        watched("http://hook/b", unready()),
        watched("http://hook/a", unready()),
        watched("http://hook/c", None),
        watched("http://hook/b", unready()),
        watched("http://hook/a", ready()),
    ];
    let state = aggregate(Some(pods));
    assert_eq!(state.len(), 3);
    assert_eq!(
        sorted_entries(&state),
        vec![
            ("http://hook/a".to_string(), PodStatus::Up),
            ("http://hook/b".to_string(), PodStatus::Down),
            ("http://hook/c".to_string(), PodStatus::Down),
        ]
    );
    assert_eq!(state.get("http://hook/a"), Some(PodStatus::Up));
    assert_eq!(state.get("http://hook/b"), Some(PodStatus::Down));
    assert_eq!(state.get("http://hook/c"), Some(PodStatus::Down));
    assert_eq!(state.get("http://hook/d"), None);
}

#[test]
fn status_does_not_depend_on_the_order_of_the_pods() {
    let pods = vec![
        watched("http://hook/a", unready()),
        watched("http://hook/b", ready()),
        watched("http://hook/a", ready()),
        watched("http://hook/c", None),
    ];
    let expected = vec![
        ("http://hook/a".to_string(), PodStatus::Up),
        ("http://hook/b".to_string(), PodStatus::Up),
        ("http://hook/c".to_string(), PodStatus::Down),
    ];
    let orders: [[usize; 4]; 6] =
        [[0, 1, 2, 3], [3, 2, 1, 0], [2, 0, 3, 1], [1, 3, 0, 2], [2, 1, 0, 3], [0, 2, 1, 3]];
    for order in orders {
        let shuffled: Vec<Pod> = order.iter().map(|&i| pods[i].clone()).collect();
        assert_eq!(sorted_entries(&tally(&shuffled)), expected, "order {order:?}");
    }
}

#[test]
fn processing_the_pods_twice_changes_nothing() {
    let pods = vec![
        watched("http://hook/a", unready()),
        watched("http://hook/b", ready()),
        watched("http://hook/a", ready()),
    ];
    let mut twice = pods.clone();
    twice.extend(pods.clone());
    assert_eq!(sorted_entries(&tally(&twice)), sorted_entries(&tally(&pods)));
}

#[test]
fn up_is_never_taken_back_within_a_cycle() {
    let pods = vec![
        watched("http://hook/a", ready()),
        watched("http://hook/a", unready()),
        watched("http://hook/a", None),
        watched("http://hook/a", Some(Vec::new())),
    ];
    assert_eq!(tally(&pods).get("http://hook/a"), Some(PodStatus::Up));
}

#[test]
fn monitored_pods_keeps_annotated_pods_in_order() {
    let listing = vec![
        watched("http://hook/b", ready()),
        unwatched(ready()),
        watched("http://hook/a", None),
        Pod { annotations: None, conditions: None },
        watched("http://hook/b", unready()),
    ];
    let kept = monitored_pods(Some(listing));
    assert_eq!(
        kept,
        vec![
            watched("http://hook/b", ready()),
            watched("http://hook/a", None),
            watched("http://hook/b", unready()),
        ]
    );
}

#[test]
fn monitored_pods_of_a_failed_listing_is_empty() {
    assert_eq!(monitored_pods(None), Vec::<Pod>::new());
    assert_eq!(monitored_pods(Some(Vec::new())), Vec::<Pod>::new());
}

#[test]
fn tally_passes_over_pods_without_the_annotation() {
    let pods = vec![unwatched(ready()), watched("http://hook/a", unready())];
    let state = tally(&pods);
    assert_eq!(sorted_entries(&state), vec![("http://hook/a".to_string(), PodStatus::Down)]);
}

#[test]
fn empty_webhook_value_is_a_target_too() {
    let state = aggregate(Some(vec![watched("", ready())]));
    assert_eq!(state.len(), 1);
    assert_eq!(state.get(""), Some(PodStatus::Up));
}
