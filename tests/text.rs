use updates::error::{get_error_str, sources};
use updates::text::{contains_str, decimal_string, join_with, signed_decimal_string, split_on, truncate};
use updates::Error;

#[test]
fn split_and_join() {
    assert_eq!(split_on("a;b;;c;", ';'), vec!["a", "b", "", "c", ""]);
    assert_eq!(split_on("", ';'), vec![""]);
    let parts = vec!["x".to_string(), "y".to_string(), "z".to_string()];
    assert_eq!(join_with(&parts, ": "), "x: y: z");
    assert_eq!(join_with(&Vec::new(), "/"), "");
}

#[test]
fn contains_finds_a_pattern() {
    assert!(contains_str("rlxos:x86_64/extension/a/b", "/extension/"));
    assert!(!contains_str("devtools", "/extension/"));
    assert!(contains_str("abc", ""));
    assert!(!contains_str("ab", "abc"));
}

#[test]
fn decimal_numbers() {
    assert_eq!(decimal_string(0), "0");
    assert_eq!(decimal_string(1234567890), "1234567890");
    assert_eq!(signed_decimal_string(-42), "-42");
    assert_eq!(signed_decimal_string(i32::MIN), "-2147483648");
}

#[test]
fn truncate_keeps_the_first_characters() {
    assert_eq!(truncate("0123456789abcdef", 6), "012345");
    assert_eq!(truncate("abc", 6), "abc");
    assert_eq!(truncate("äöüßéè", 3), "äöü");
}

#[test]
fn error_chain_on_one_line() {
    let e = Error::ObjectStore("No such ref".to_string());
    assert_eq!(sources(&e), vec!["object store", "No such ref"]);
    assert_eq!(get_error_str(&e), "ERROR: object store: No such ref");
    assert_eq!(get_error_str(&Error::EngineIsBusy), "ERROR: engine is busy");
    assert_eq!(
        Error::NoOriginForDeployment("abcd".to_string(), 3).message(),
        "no origin known for deployment abcd.3"
    );
    assert_eq!(Error::FailedSetupNamespace(-1).message(), "failed to setup namespace -1");
    assert_eq!(
        Error::PermissionDenied("need superuser access".to_string()).message(),
        "permission denied need superuser access"
    );
    assert_eq!(
        Error::NoRevisionForRefSpec("rlxos:x86_64/os/testing".to_string()).message(),
        "no revision for refspec rlxos:x86_64/os/testing"
    );
}
