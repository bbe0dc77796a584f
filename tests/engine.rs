use portpilot::net::{after_accept, after_connect, ForwardError, ForwardRule, Forwarder, ListenerAction, RelayAction};
use portpilot::registry::RuleRegistry;
use portpilot::state::ForwardState;
use portpilot::text::same_text;
use tokio::runtime::Runtime;
use tokio::task::JoinHandle;

fn rule(id: &str, port: u16, remote: &str) -> ForwardRule {
    ForwardRule {
        id: id.to_string(),
        local_port: port,
        remote_address: remote.to_string(),
        active: false,
    }
}

fn idle_task(rt: &Runtime) -> JoinHandle<()> {
    rt.spawn(std::future::pending::<()>())
}

fn ids(rules: &[ForwardRule]) -> Vec<String> {
    rules.iter().map(|r| r.id.clone()).collect()
}

#[test]
fn start_records_rule_as_active() {
    let rt = Runtime::new().unwrap();
    let mut st = ForwardState::new();
    let r = rule("a", 9001, "127.0.0.1:9002");
    assert!(st.check_start(&r).is_ok());
    assert_eq!(st.start_forward(r.clone(), Ok(idle_task(&rt))), Ok(()));
    let listed = st.get_forward_rules();
    assert_eq!(listed.len(), 1);
    assert_eq!(listed[0].id, "a");
    assert_eq!(listed[0].local_port, 9001);
    assert_eq!(listed[0].remote_address, "127.0.0.1:9002");
    assert!(listed[0].active);
    assert!(st.is_active("a"));
    assert!(!st.is_active("b"));
}

#[test]
fn second_start_of_same_id_is_duplicate() {
    let rt = Runtime::new().unwrap();
    let mut st = ForwardState::new();
    let r = rule("a", 9001, "127.0.0.1:9002");
    assert_eq!(st.start_forward(r.clone(), Ok(idle_task(&rt))), Ok(()));
    assert_eq!(st.check_start(&r), Err(ForwardError::Duplicate));
    let late = idle_task(&rt);
    assert_eq!(st.start_forward(r.clone(), Ok(late)), Err(ForwardError::Duplicate));
    assert_eq!(ids(&st.get_forward_rules()), vec!["a".to_string()]);
    // A duplicate refused before any bind is refused the same way.
    assert_eq!(
        st.start_forward(r, Err("address in use".to_string())),
        Err(ForwardError::Duplicate)
    );
    assert_eq!(st.get_forward_rules().len(), 1);
}

#[test]
fn duplicate_start_cancels_the_late_task() {
    let rt = Runtime::new().unwrap();
    let mut fw = Forwarder::new();
    let r = rule("a", 9001, "127.0.0.1:9002");
    assert_eq!(fw.start(&r, Ok(idle_task(&rt))), Ok(()));
    let late = idle_task(&rt);
    let probe = late.abort_handle();
    assert_eq!(fw.start(&r, Ok(late)), Err(ForwardError::Duplicate));
    rt.block_on(async {
        for _ in 0..200 {
            if probe.is_finished() {
                break;
            }
            tokio::time::sleep(std::time::Duration::from_millis(5)).await;
        }
    });
    assert!(probe.is_finished());
    assert!(fw.is_active("a"));
}

#[test]
fn failed_bind_leaves_registry_unchanged() {
    let rt = Runtime::new().unwrap();
    let mut st = ForwardState::new();
    assert_eq!(st.start_forward(rule("a", 9001, "h:1"), Ok(idle_task(&rt))), Ok(()));
    let r = st.start_forward(rule("b", 9001, "h:2"), Err("Address already in use".to_string()));
    assert_eq!(
        r,
        Err(ForwardError::Bind { port: 9001, reason: "Address already in use".to_string() })
    );
    assert_eq!(ids(&st.get_forward_rules()), vec!["a".to_string()]);
    assert!(!st.is_active("b"));
    assert!(st.check_start(&rule("b", 9003, "h:2")).is_ok());
}

#[test]
fn stop_of_unknown_id_changes_nothing() {
    let rt = Runtime::new().unwrap();
    let mut st = ForwardState::new();
    st.stop_forward("nobody");
    assert!(st.get_forward_rules().is_empty());
    assert_eq!(st.start_forward(rule("a", 9001, "h:1"), Ok(idle_task(&rt))), Ok(()));
    st.stop_forward("nobody");
    assert_eq!(ids(&st.get_forward_rules()), vec!["a".to_string()]);
    assert!(st.is_active("a"));
}

#[test]
fn start_a_start_b_stop_a_lists_only_b() {
    let rt = Runtime::new().unwrap();
    let mut st = ForwardState::new();
    assert_eq!(st.start_forward(rule("A", 9001, "127.0.0.1:9002"), Ok(idle_task(&rt))), Ok(()));
    assert_eq!(st.start_forward(rule("B", 9011, "127.0.0.1:9012"), Ok(idle_task(&rt))), Ok(()));
    st.stop_forward("A");
    let listed = st.get_forward_rules();
    assert_eq!(listed.len(), 1);
    assert_eq!(listed[0].id, "B");
    assert_eq!(listed[0].local_port, 9011);
    assert!(listed[0].active);
    assert!(!st.is_active("A"));
    assert!(st.is_active("B"));
}

#[test]
fn stopped_id_can_start_again() {
    let rt = Runtime::new().unwrap();
    let mut st = ForwardState::new();
    assert_eq!(st.start_forward(rule("a", 9001, "h:1"), Ok(idle_task(&rt))), Ok(()));
    st.stop_forward("a");
    assert_eq!(st.start_forward(rule("a", 9002, "h:1"), Ok(idle_task(&rt))), Ok(()));
    let listed = st.get_forward_rules();
    assert_eq!(listed.len(), 1);
    assert_eq!(listed[0].local_port, 9002);
}

#[test]
fn distinct_starts_all_succeed_in_order() {
    let rt = Runtime::new().unwrap();
    let mut st = ForwardState::new();
    let n: u16 = 16;
    for k in 0..n {
        let id = format!("rule-{}", k);
        let r = rule(&id, 10000 + k, "127.0.0.1:7000");
        assert_eq!(st.start_forward(r, Ok(idle_task(&rt))), Ok(()));
    }
    let listed = st.get_forward_rules();
    assert_eq!(listed.len(), n as usize);
    for (k, r) in listed.iter().enumerate() {
        assert_eq!(r.id, format!("rule-{}", k));
        assert_eq!(r.local_port, 10000 + k as u16);
        assert!(r.active);
    }
}

#[test]
fn stop_cancels_listener_task() {
    let rt = Runtime::new().unwrap();
    let mut fw = Forwarder::new();
    let task = idle_task(&rt);
    let probe = task.abort_handle();
    assert_eq!(fw.start(&rule("a", 9001, "h:1"), Ok(task)), Ok(()));
    assert!(!probe.is_finished());
    assert!(fw.stop("a"));
    assert!(!fw.stop("a"));
    rt.block_on(async {
        for _ in 0..200 {
            if probe.is_finished() {
                break;
            }
            tokio::time::sleep(std::time::Duration::from_millis(5)).await;
        }
    });
    assert!(probe.is_finished());
    assert!(!fw.is_active("a"));
}

#[test]
fn registry_remove_deletes_every_match_in_order() {
    let mut reg = RuleRegistry::new();
    reg.add(rule("a", 1, "h:1"));
    reg.add(rule("b", 2, "h:2"));
    reg.add(rule("a", 3, "h:3"));
    reg.add(rule("c", 4, "h:4"));
    reg.remove("a");
    let listed = reg.list();
    assert_eq!(ids(&listed), vec!["b".to_string(), "c".to_string()]);
    assert_eq!(listed[0].local_port, 2);
    assert_eq!(listed[1].local_port, 4);
    reg.remove("zzz");
    assert_eq!(reg.list().len(), 2);
}

#[test]
fn registry_list_is_a_snapshot() {
    let mut reg = RuleRegistry::new();
    reg.add(rule("a", 1, "h:1"));
    let snap = reg.list();
    reg.remove("a");
    assert_eq!(snap.len(), 1);
    assert!(reg.list().is_empty());
}

#[test]
fn rule_clone_and_activation() {
    let r = rule("x", 5, "h:5");
    let c = r.clone();
    assert_eq!(c, r);
    let a = r.with_active(true);
    assert!(a.active);
    assert_eq!(a.id, "x");
}

#[test]
fn accept_and_connect_steps() {
    assert_eq!(after_accept(true), ListenerAction::SpawnRelay);
    assert_eq!(after_accept(false), ListenerAction::ReportAndContinue);
    assert_eq!(after_connect(true), RelayAction::CopyBothWays);
    assert_eq!(after_connect(false), RelayAction::ReportAndDrop);
}

#[test]
fn text_comparison() {
    assert!(same_text("rule-1", "rule-1"));
    assert!(!same_text("rule-1", "rule-2"));
    assert!(!same_text("rule", "rule-1"));
    assert!(same_text("", ""));
    assert!(same_text("héllo", "héllo"));
    assert!(!same_text("héllo", "hello"));
}
