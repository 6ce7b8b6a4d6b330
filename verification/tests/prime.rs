use agent_mail::prime::MANUAL;

#[test]
fn prime_contains_the_agent_workflow() {
    let manual = MANUAL;
    assert!(manual.contains("agent-id prime"));
    assert!(manual.contains("agent-mail send"));
    assert!(manual.contains("agent-mail read"));
    assert!(manual.contains("agent-mail receipt"));
    assert!(manual.contains("agent-mail discard"));
}

#[test]
fn prime_excludes_implementation_and_generated_reference() {
    let manual = MANUAL;
    assert!(!manual.contains("## Storage model"));
    assert!(!manual.contains("## Command reference"));
    assert!(!manual.contains("extensions/agent-mail.ts"));
}

#[test]
fn prime_teaches_the_agent_communication_workflow() {
    let manual = MANUAL;
    assert!(manual.contains("agent-id prime"));
    assert!(manual.contains("agent-mail send"));
    assert!(manual.contains("agent-mail read"));
    assert!(manual.contains("agent-mail receipt"));
    assert!(manual.contains("scan --to RECIPIENT --json"));
    assert!(manual.contains("addr RECIPIENT --json"));
    assert!(manual.contains("receipt MSGID --json"));
}
