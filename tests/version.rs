use nirb::text::decimal_string;
use nirb::version::Version;

#[test]
fn should_return_a_string_when_failing_to_apply_try_from_to_str() {
    let result = Version::try_from("bad-version").unwrap_err();
    let expected = "Invalid version format: expected 3 components, got 1.";
    assert_eq!(result, expected);
}

#[test]
fn should_return_version() {
    let result = Version::try_from("1.0.0").unwrap();
    let expected = "1.0.0";
    assert_eq!(result.as_str(), expected);
}

#[test]
fn version_keeps_text_as_written() {
    for s in ["0.0.0", "1.2.3", "10.20.30", "01.002.0003", "99999999999999999999.0.1"] {
        let v = Version::try_from(s).unwrap();
        assert_eq!(v.as_str(), s);
        assert_eq!(v.clone(), v);
    }
}

#[test]
fn version_with_wrong_arity_is_refused() {
    assert_eq!(
        Version::try_from("1.2").unwrap_err(),
        "Invalid version format: expected 3 components, got 2."
    );
    assert_eq!(
        Version::try_from("1.2.3.4").unwrap_err(),
        "Invalid version format: expected 3 components, got 4."
    );
    assert_eq!(
        Version::try_from("1.2.3.4.5.6.7.8.9.10.11").unwrap_err(),
        "Invalid version format: expected 3 components, got 11."
    );
    assert_eq!(
        Version::try_from("").unwrap_err(),
        "Invalid version format: expected 3 components, got 1."
    );
}

#[test]
fn version_with_non_numeric_component_is_refused() {
    for s in ["1.x.0", "1..0", ".1.0", "1.0.", "1.0.0-beta", "+1.0.0", "1. 0.0"] {
        assert_eq!(
            Version::try_from(s).unwrap_err(),
            "Invalid version format: expected numeric components."
        );
    }
}

#[test]
fn decimal_rendering() {
    assert_eq!(decimal_string(0), "0");
    assert_eq!(decimal_string(7), "7");
    assert_eq!(decimal_string(10), "10");
    assert_eq!(decimal_string(1203), "1203");
    assert_eq!(decimal_string(usize::MAX as u128), usize::MAX.to_string());
    assert_eq!(decimal_string(u128::MAX), u128::MAX.to_string());
}
