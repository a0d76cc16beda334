use beatsaber::Error;

#[test]
fn each_kind_of_failure_describes_itself() {
    assert_eq!(
        Error::ClientBuildError(String::from("no tls backend")).message(),
        "Unable to build client"
    );
    assert_eq!(
        Error::ClientSendError(String::from("connection refused")).message(),
        "Unable to send request"
    );
    assert_eq!(
        Error::ClientJsonError(String::from("expected value at line 1")).message(),
        "Unable to parse request"
    );
}

#[test]
fn message_does_not_depend_on_the_cause() {
    assert_eq!(
        Error::ClientSendError(String::new()).message(),
        Error::ClientSendError(String::from("timed out")).message()
    );
}

#[test]
fn each_kind_of_failure_keeps_its_cause() {
    assert_eq!(
        Error::ClientBuildError(String::from("no tls backend")).cause(),
        "no tls backend"
    );
    assert_eq!(
        Error::ClientSendError(String::from("connection refused")).cause(),
        "connection refused"
    );
    assert_eq!(
        Error::ClientJsonError(String::from("expected value at line 1")).cause(),
        "expected value at line 1"
    );
}

#[test]
fn kinds_of_failure_differ() {
    let cause = || String::from("x");
    assert_ne!(Error::ClientBuildError(cause()), Error::ClientSendError(cause()));
    assert_ne!(Error::ClientSendError(cause()), Error::ClientJsonError(cause()));
    assert_ne!(Error::ClientBuildError(cause()), Error::ClientJsonError(cause()));
    assert_eq!(Error::ClientJsonError(cause()), Error::ClientJsonError(cause()));
}
