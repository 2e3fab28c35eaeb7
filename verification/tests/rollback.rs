use state_rollback::errors::Error;
use state_rollback::host::init;
use state_rollback::host::Host;

fn params_for(key: &str, value: &str) -> Vec<u8> {
    state_rollback::codec::encode_entry(&String::from(key), &String::from(value))
        .expect("both strings fit a length prefix")
}

#[test]
fn test_transactionality() {
    let state = init();
    let mut host = Host::new(state);

    assert!(host.state().is_empty());

    let params = params_for("key", "value");

    assert!(host.state().is_empty());

    let result = host.invoke_update(&params);
    assert_eq!(result, Err(Error::NotFound));

    assert!(host.state().is_empty());
    assert_eq!(host.state().get(&String::from("key")), None);
}

#[test]
fn successful_invocation_commits_the_new_value() {
    let mut store = init();
    store.insert(String::from("key"), String::from("old"));
    let mut host = Host::new(store);

    let result = host.invoke_update(&params_for("key", "new"));
    assert_eq!(result, Ok(()));
    assert_eq!(host.state().get(&String::from("key")), Some(String::from("new")));
    assert_eq!(host.state().len(), 1);
}

#[test]
fn not_found_leaves_committed_state_untouched() {
    let mut store = init();
    store.insert(String::from("present"), String::from("kept"));
    let mut host = Host::new(store);

    let result = host.invoke_update(&params_for("absent", "value"));
    assert_eq!(result, Err(Error::NotFound));
    assert_eq!(host.state().len(), 1);
    assert_eq!(host.state().get(&String::from("present")), Some(String::from("kept")));
    assert_eq!(host.state().get(&String::from("absent")), None);
}

#[test]
fn malformed_parameter_rolls_back_to_the_prior_state() {
    let mut store = init();
    store.insert(String::from("key"), String::from("value"));
    let mut host = Host::new(store);

    let garbage: Vec<u8> = vec![9, 9, 9];
    let result = host.invoke_update(&garbage);
    assert_eq!(result, Err(Error::MalformedParameter));
    assert_eq!(host.state().len(), 1);
    assert_eq!(host.state().get(&String::from("key")), Some(String::from("value")));
}

#[test]
fn consecutive_invocations_are_each_atomic() {
    let mut store = init();
    store.insert(String::from("key"), String::from("first"));
    let mut host = Host::new(store);

    assert_eq!(host.invoke_update(&params_for("other", "x")), Err(Error::NotFound));
    assert_eq!(host.state().get(&String::from("key")), Some(String::from("first")));

    assert_eq!(host.invoke_update(&params_for("key", "second")), Ok(()));
    assert_eq!(host.state().get(&String::from("key")), Some(String::from("second")));

    assert_eq!(host.invoke_update(&Vec::new()), Err(Error::MalformedParameter));
    assert_eq!(host.state().get(&String::from("key")), Some(String::from("second")));
    assert_eq!(host.state().len(), 1);
}
