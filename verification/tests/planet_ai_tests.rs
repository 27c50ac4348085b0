use stargazers::planet_ai::StargazersAI;

#[test]
fn test_ai_initial_state() {
    let ai = StargazersAI { started: false, stopped: false };
    assert!(!ai.started);
    assert!(!ai.stopped);
}

#[test]
fn ai_start_and_stop() {
    let mut ai = StargazersAI::new();
    assert!(!ai.started && !ai.stopped);
    ai.on_start();
    assert!(ai.started && !ai.stopped);
    ai.on_stop();
    assert!(!ai.started && ai.stopped);
    ai.on_start();
    assert!(ai.started && !ai.stopped);
}
