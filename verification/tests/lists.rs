use native::firewall::{action_name_exec, rule_row, rule_rows, FirewallRule};
use native::services::{service_row, service_rows, startup_name_exec, wait_step, Service, WaitStep, SERVICE_RUNNING, SERVICE_STOPPED, MAX_ATTEMPTS};
use native::tasks::{subfolder_path, task_row, task_rows, trigger_type_name_exec, TaskEntry};

fn text(v: &[char]) -> String {
    v.iter().collect()
}

fn service(name: &str, startup: u32, running: bool) -> Service {
    Service { name: name.to_string(), internal_name: vec![0], startup_type: startup, is_running: running }
}

#[test]
fn service_row_columns() {
    // width 30: 16 left for the two free columns, 8 each
    let s = service("Spooler", 2, true);
    assert_eq!(text(&service_row(&s, true, 30)), "> Spooler  Running    Automatic");
    let s = service("A very long service name", 3, false);
    assert_eq!(text(&service_row(&s, false, 30)), "  A ver...            Manual");
}

#[test]
fn service_rows_follow_shown_order() {
    let all = vec![service("a", 0, false), service("b", 4, true), service("c", 9, false)];
    let rows = service_rows(&all, &vec![2, 0], 1, 26);
    assert_eq!(rows.len(), 2);
    assert_eq!(text(&rows[0]), "  c                 Unknown");
    assert_eq!(text(&rows[1]), "> a                 Boot");
}

#[test]
fn startup_names() {
    let names: Vec<&str> = (0..6).map(startup_name_exec).collect();
    assert_eq!(names, vec!["Boot", "System", "Automatic", "Manual", "Disabled", "Unknown"]);
}

#[test]
fn waiting_for_a_service() {
    assert_eq!(wait_step(true, SERVICE_RUNNING, 0), WaitStep::Again(1));
    assert_eq!(wait_step(true, SERVICE_STOPPED, 3), WaitStep::Done);
    assert_eq!(wait_step(false, SERVICE_STOPPED, 3), WaitStep::Again(4));
    assert_eq!(wait_step(false, SERVICE_RUNNING, 3), WaitStep::Done);
    assert_eq!(wait_step(false, SERVICE_STOPPED, MAX_ATTEMPTS - 2), WaitStep::Again(MAX_ATTEMPTS - 1));
    assert_eq!(wait_step(false, SERVICE_STOPPED, MAX_ATTEMPTS - 1), WaitStep::GiveUp);
    assert_eq!(MAX_ATTEMPTS, 5000);
    assert_eq!(wait_step(true, SERVICE_RUNNING, 4998), WaitStep::Again(4999));
    assert_eq!(wait_step(true, SERVICE_RUNNING, 4999), WaitStep::GiveUp);
}

fn rule(name: &str, action: &str, port: &str, program: &str, enabled: bool) -> FirewallRule {
    FirewallRule {
        name: name.to_string(),
        action: action.to_string(),
        program: program.to_string(),
        protocol: "6".to_string(),
        port: port.to_string(),
        enabled,
    }
}

#[test]
fn firewall_row_columns() {
    let r = rule("Web", "Allow", "80,443", "C:\\srv\\web.exe", true);
    assert_eq!(
        text(&rule_row(&r, true, 30)),
        "> Web      Enabled  Allow 80,443               C:\\sr..."
    );
    let r = rule("Block all", "Block", "", "", false);
    assert_eq!(text(&rule_row(&r, false, 30)), "  Block... Disabled Block                      ");
    let rows = rule_rows(&vec![r], &vec![0], 0, 30);
    assert_eq!(text(&rows[0]), "> Block... Disabled Block                      ");
}

#[test]
fn firewall_actions() {
    assert_eq!(action_name_exec(1), "Allow");
    assert_eq!(action_name_exec(0), "Block");
    assert_eq!(action_name_exec(2), "???");
}

#[test]
fn task_row_uses_slashes() {
    let t = TaskEntry { name: "Backup".to_string(), path: "\\Tools\\".to_string(), enabled: false };
    assert_eq!(text(&task_row(&t, false, 30)), "  Backup   Disabled   /Tools/ ");
    let rows = task_rows(&vec![t], &vec![0], 0, 30);
    assert_eq!(text(&rows[0]), "> Backup   Disabled   /Tools/ ");
}

#[test]
fn subfolders() {
    assert_eq!(subfolder_path("\\", "Microsoft"), "\\Microsoft\\");
    assert_eq!(subfolder_path("\\Microsoft\\", "Windows"), "\\Microsoft\\Windows\\");
}

#[test]
fn trigger_kinds() {
    assert_eq!(trigger_type_name_exec(1), "Time");
    assert_eq!(trigger_type_name_exec(5), "Monthly Day-of-Week");
    assert_eq!(trigger_type_name_exec(11), "Session State Change");
    assert_eq!(trigger_type_name_exec(10), "Unknown");
}
