use nirb::url_context::{TemplateError, UrlContext};
use nirb::version::Version;

fn context() -> UrlContext {
    UrlContext {
        bin: "bin".to_string(),
        name: "name".to_string(),
        triple: "triple".to_string(),
        version: Version::try_from("1.0.0").unwrap(),
    }
}

#[test]
fn should_subsitute_context_values() {
    let name = "name".to_string();
    let bin = "bin".to_string();
    let version = Version::try_from("1.0.0").unwrap();
    let triple = "triple".to_string();

    let pattern = "{name}{bin}{triple}-{version}";

    let result = UrlContext {
        bin: bin.to_string(),
        name: name.to_string(),
        triple: triple.to_string(),
        version: version.clone(),
    }
    .subsitute(pattern);

    let expected = "namebintriple-1.0.0";

    assert_eq!(result, Ok(expected.to_string()));
}

#[test]
fn substitution_is_repeatable() {
    let pattern = "https://example.com/{name}/v{version}/{bin}-{triple}.bin";
    let first = context().subsitute(pattern);
    let second = context().subsitute(pattern);
    assert_eq!(first, second);
    assert_eq!(
        first,
        Ok("https://example.com/name/v1.0.0/bin-triple.bin".to_string())
    );
}

#[test]
fn values_are_put_in_raw() {
    let ctx = UrlContext {
        bin: "a&b <c>".to_string(),
        name: "n\"m".to_string(),
        triple: "x86_64-unknown-linux-gnu".to_string(),
        version: Version::try_from("2.10.0").unwrap(),
    };
    assert_eq!(
        ctx.subsitute("{bin}/{name}/{triple}/{version}"),
        Ok("a&b <c>/n\"m/x86_64-unknown-linux-gnu/2.10.0".to_string())
    );
}

#[test]
fn pattern_without_placeholders_is_kept() {
    assert_eq!(context().subsitute(""), Ok(String::new()));
    assert_eq!(
        context().subsitute("plain } text"),
        Ok("plain } text".to_string())
    );
    assert_eq!(context().subsitute("é{bin}ü"), Ok("ébinü".to_string()));
}

#[test]
fn unknown_placeholder_is_refused() {
    assert_eq!(
        context().subsitute("https://x/{os}/{bin}"),
        Err(TemplateError::UnknownPlaceholder("os".to_string()))
    );
    assert_eq!(
        context().subsitute("{ bin }"),
        Err(TemplateError::UnknownPlaceholder(" bin ".to_string()))
    );
    assert_eq!(
        context().subsitute("{}"),
        Err(TemplateError::UnknownPlaceholder(String::new()))
    );
}

#[test]
fn unterminated_placeholder_is_refused() {
    assert_eq!(
        context().subsitute("https://x/{bin"),
        Err(TemplateError::Unterminated)
    );
    assert_eq!(context().subsitute("{"), Err(TemplateError::Unterminated));
}
