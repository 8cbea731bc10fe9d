use nirb::error::Error;
use nirb::provision::{aggregate, make_url, plan, plan_task, Outcome};
use nirb::url_context::{TemplateError, UrlContext};
use nirb::version::Version;

fn bins() -> Vec<(String, String)> {
    vec![
        ("a".to_string(), "./bin/a".to_string()),
        ("b".to_string(), "./bin/b".to_string()),
        ("c".to_string(), "./bin/c".to_string()),
    ]
}

fn ok(bin: &str) -> Outcome {
    Outcome {
        bin: bin.to_string(),
        result: Ok(()),
    }
}

#[test]
fn make_url_fills_in_and_resolves() {
    let ctx = UrlContext {
        bin: "one".to_string(),
        name: "pkg".to_string(),
        triple: "x86_64-unknown-linux-gnu".to_string(),
        version: Version::try_from("1.2.3").unwrap(),
    };
    assert_eq!(
        make_url(&ctx, "file:./dist/{triple}/{bin}", "/work"),
        Ok("file:/work/./dist/x86_64-unknown-linux-gnu/one".to_string())
    );
    assert_eq!(
        make_url(&ctx, "file:./{os}", "/work"),
        Err(TemplateError::UnknownPlaceholder("os".to_string()))
    );
}

#[test]
fn plan_keeps_declaration_order() {
    let version = Version::try_from("1.0.0").unwrap();
    let planned = plan(
        &bins(),
        "pkg",
        &version,
        "https://example.com/{name}/{version}/{bin}-{triple}",
        "aarch64-apple-darwin",
        "/w",
    );
    assert_eq!(planned.len(), 3);
    for (task, name) in planned.iter().zip(["a", "b", "c"]) {
        let task = task.as_ref().unwrap();
        assert_eq!(task.bin, name);
        assert_eq!(task.destination, format!("./bin/{name}"));
        assert_eq!(
            task.location,
            format!("https://example.com/pkg/1.0.0/{name}-aarch64-apple-darwin")
        );
        assert_eq!(task.url.as_str(), task.location);
    }
}

#[test]
fn plan_of_relative_local_file() {
    let version = Version::try_from("1.0.0").unwrap();
    let task = plan_task("one", "./bin/one", "pkg", &version, "file:./fixtures/{bin}", "t", "/work")
        .unwrap();
    assert_eq!(task.location, "file:/work/./fixtures/one");
    assert_eq!(task.url.scheme(), "file");
    assert_eq!(task.url.path(), "/work/fixtures/one");
}

#[test]
fn template_failure_is_the_binary_outcome() {
    let version = Version::try_from("1.0.0").unwrap();
    let failed = plan_task("one", "./bin/one", "pkg", &version, "https://x/{os}", "t", "/w")
        .unwrap_err();
    assert_eq!(failed.bin, "one");
    assert_eq!(
        failed.result,
        Err(Error::Template(TemplateError::UnknownPlaceholder(
            "os".to_string()
        )))
    );
}

#[test]
fn malformed_url_is_the_binary_outcome() {
    let version = Version::try_from("1.0.0").unwrap();
    let failed = plan_task("one", "./bin/one", "pkg", &version, "{bin}/relative", "t", "/w")
        .unwrap_err();
    assert_eq!(failed.bin, "one");
    assert_eq!(
        failed.result,
        Err(Error::UrlParse("relative URL without a base".to_string()))
    );
    let failed = plan_task("one", "d", "pkg", &version, "http://[::1/{bin}", "t", "/w")
        .unwrap_err();
    assert!(matches!(failed.result, Err(Error::UrlParse(_))));
}

#[test]
fn all_succeeded_is_success() {
    assert_eq!(aggregate(&vec![ok("a"), ok("b"), ok("c")]), Ok(()));
    assert_eq!(aggregate(&vec![]), Ok(()));
}

#[test]
fn one_network_failure_is_reported_alone() {
    let outcomes = vec![
        ok("a"),
        Outcome {
            bin: "b".to_string(),
            result: Err(Error::Network("connection refused".to_string())),
        },
        ok("c"),
    ];
    let message = aggregate(&outcomes).unwrap_err();
    assert!(message.contains("b: connection refused"));
    assert!(!message.contains("a:"));
    assert!(!message.contains("c:"));
    assert_eq!(
        message,
        "b: connection refused"
    );
}

#[test]
fn failures_are_listed_in_declaration_order() {
    let outcomes = vec![
        Outcome {
            bin: "z".to_string(),
            result: Err(Error::IO("permission denied".to_string())),
        },
        ok("m"),
        Outcome {
            bin: "a".to_string(),
            result: Err(Error::Template(TemplateError::Unterminated)),
        },
        Outcome {
            bin: "q".to_string(),
            result: Err(Error::Template(TemplateError::UnknownPlaceholder(
                "os".to_string(),
            ))),
        },
    ];
    assert_eq!(
        aggregate(&outcomes),
        Err("z: permission denied\na: unterminated placeholder\nq: unknown placeholder os".to_string())
    );
}

#[test]
fn same_run_twice_gives_same_report() {
    let version = Version::try_from("1.0.0").unwrap();
    let run = || {
        let planned = plan(&bins(), "pkg", &version, "https://h/{bin}/{os}", "t", "/w");
        let outcomes: Vec<Outcome> = planned
            .into_iter()
            .map(|p| p.map(|t| ok(&t.bin)).unwrap_or_else(|o| o))
            .collect();
        aggregate(&outcomes)
    };
    let first = run();
    let second = run();
    assert_eq!(first, second);
    assert_eq!(
        first,
        Err("a: unknown placeholder os\nb: unknown placeholder os\nc: unknown placeholder os".to_string())
    );
}

#[test]
fn reasons_as_text() {
    assert_eq!(Error::Network("timeout".to_string()).reason(), "timeout");
    assert_eq!(Error::IO("missing".to_string()).reason(), "missing");
    assert_eq!(Error::UrlParse("bad".to_string()).reason(), "bad");
    assert_eq!(
        Error::InvalidVersion("Invalid version format: expected 3 components, got 1.".to_string()).reason(),
        "Invalid version format: expected 3 components, got 1."
    );
    assert_eq!(
        Error::Template(TemplateError::Unterminated).reason(),
        "unterminated placeholder"
    );
}
