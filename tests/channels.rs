use syscore::channels::JobChannels;

#[test]
fn unknown_job_has_no_channel() {
    let channels = JobChannels::new();
    assert!(channels.subscribe("nope").is_none());
    assert!(!channels.contains("nope"));
}

#[test]
fn registered_job_can_be_subscribed() {
    let mut channels = JobChannels::new();
    let (tx, _rx) = tokio::sync::broadcast::channel::<String>(4);
    channels.register("job-1".to_string(), tx.clone());
    let mut rx = channels.subscribe("job-1").expect("a channel");
    tx.send("hello".to_string()).unwrap();
    assert_eq!(rx.try_recv().unwrap(), "hello");
    assert!(channels.subscribe("job-2").is_none());
}

#[test]
fn removed_job_has_no_channel() {
    let mut channels = JobChannels::new();
    let (tx, _rx) = tokio::sync::broadcast::channel::<String>(4);
    channels.register("a".to_string(), tx.clone());
    channels.register("b".to_string(), tx.clone());
    channels.register("a".to_string(), tx);
    channels.remove("a");
    assert!(!channels.contains("a"));
    assert!(channels.contains("b"));
}

#[test]
fn registering_again_replaces_the_sender() {
    let mut channels = JobChannels::new();
    let (old_tx, _old_rx) = tokio::sync::broadcast::channel::<String>(4);
    let (new_tx, _new_rx) = tokio::sync::broadcast::channel::<String>(4);
    channels.register("job".to_string(), old_tx.clone());
    channels.register("job".to_string(), new_tx.clone());
    let mut rx = channels.subscribe("job").unwrap();
    old_tx.send("old".to_string()).unwrap();
    new_tx.send("new".to_string()).unwrap();
    assert_eq!(rx.try_recv().unwrap(), "new");
    assert!(rx.try_recv().is_err());
}
