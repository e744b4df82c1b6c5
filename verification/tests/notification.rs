use status_webhook::aggregate::aggregate;
use status_webhook::notify::{notifications, Delivery, DELIVERY_TIMEOUT_SECS};
use status_webhook::pod::{Condition, Pod, WEBHOOK_ANNOTATION};
use status_webhook::state::CycleState;
use status_webhook::status::PodStatus;

fn sorted_plan(state: &CycleState) -> Vec<Delivery> {
    let mut plan = notifications(state);
    plan.sort_by(|a, b| a.url.cmp(&b.url));
    plan
}

#[test]
fn payload_for_up_is_exact() {
    assert_eq!(PodStatus::Up.payload(), "{\"trigger\":\"up\"}");
    assert_eq!(PodStatus::Up.payload().as_bytes(), b"{\"trigger\":\"up\"}");
}

#[test]
fn payload_for_down_is_exact() {
    assert_eq!(PodStatus::Down.payload(), "{\"trigger\":\"down\"}");
    assert_eq!(PodStatus::Down.payload().as_bytes(), b"{\"trigger\":\"down\"}");
}

#[test]
fn trigger_words() {
    assert_eq!(PodStatus::Up.trigger(), "up");
    assert_eq!(PodStatus::Down.trigger(), "down");
}

#[test]
fn payload_is_a_json_object_with_one_member() {
    for (status, word) in [(PodStatus::Up, "up"), (PodStatus::Down, "down")] {
        let parsed: serde_json::Value = serde_json::from_str(&status.payload()).unwrap();
        let object = parsed.as_object().unwrap();
        assert_eq!(object.len(), 1);
        assert_eq!(object.get("trigger"), Some(&serde_json::Value::String(word.to_string())));
    }
}

#[test]
fn delivery_reports_its_status() {
    let up = Delivery::new("http://hook/a", PodStatus::Up);
    assert_eq!(up, Delivery { url: "http://hook/a".to_string(), status: PodStatus::Up });
    assert_eq!(up.trigger(), "up");
    assert_eq!(up.body(), "{\"trigger\":\"up\"}");
    let down = Delivery::new("http://hook/b", PodStatus::Down);
    assert_eq!(down, Delivery { url: "http://hook/b".to_string(), status: PodStatus::Down });
    assert_eq!(down.trigger(), "down");
    assert_eq!(down.body(), "{\"trigger\":\"down\"}");
}

#[test]
fn empty_state_has_no_deliveries() {
    assert_eq!(notifications(&CycleState::new()), Vec::<Delivery>::new());
    assert_eq!(notifications(&aggregate(None)), Vec::<Delivery>::new());
    assert_eq!(notifications(&aggregate(Some(Vec::new()))), Vec::<Delivery>::new());
}

#[test]
fn every_target_gets_one_delivery() {
    let state = CycleState::new()
        .observe("http://hook/c", false)
        .observe("http://hook/a", true)
        .observe("http://hook/b", false)
        .observe("http://hook/c", true)
        .observe("http://hook/a", false);
    assert_eq!(
        sorted_plan(&state),
        vec![
            Delivery { url: "http://hook/a".to_string(), status: PodStatus::Up },
            Delivery { url: "http://hook/b".to_string(), status: PodStatus::Down },
            Delivery { url: "http://hook/c".to_string(), status: PodStatus::Up },
        ]
    );
}

#[test]
fn deliveries_follow_from_the_listing() {
    let annotated = |url: &str, status: &str| Pod {
        annotations: Some(vec![(WEBHOOK_ANNOTATION.to_string(), url.to_string())]),
        conditions: Some(vec![Condition {
            type_: "Ready".to_string(),
            status: status.to_string(),
        }]),
    };
    let pods = vec![
        annotated("http://hook/a", "False"),
        annotated("http://hook/b", "True"),
        Pod { annotations: None, conditions: None },
    ];
    let plan = sorted_plan(&aggregate(Some(pods)));
    let bodies: Vec<(String, String)> = plan.iter().map(|d| (d.url.clone(), d.body())).collect();
    assert_eq!(
        bodies,
        vec![
            ("http://hook/a".to_string(), "{\"trigger\":\"down\"}".to_string()),
            ("http://hook/b".to_string(), "{\"trigger\":\"up\"}".to_string()),
        ]
    );
}

#[test]
fn delivery_timeout_is_bounded() {
    assert_eq!(DELIVERY_TIMEOUT_SECS, 10);
}
