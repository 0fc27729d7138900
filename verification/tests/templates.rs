use mailer::models::EmailTemplate;
use mailer::templates::{
    holds_partial_tag, is_tame, nests_too_deep, template_name, RenderFailure, TemplateEngine,
    TemplateSources, MAX_NESTING,
};

fn sources() -> TemplateSources {
    TemplateSources {
        otp: "<p>Your code is {{otp}} for {{email}} (c) {{year}}</p>".to_string(),
        otp_2fa: "<p>Login code {{otp}}</p>".to_string(),
        welcome: "Welcome, {{name}}!".to_string(),
        password_reset: "Reset: {{{link}}}".to_string(),
        license_created: "year={{year}}".to_string(),
    }
}

fn engine() -> TemplateEngine {
    TemplateEngine::new(&sources()).expect("the sources are well-formed")
}

fn object(members: &[(&str, &str)]) -> serde_json::Value {
    let mut map = serde_json::Map::new();
    for (key, text) in members {
        map.insert(key.to_string(), serde_json::Value::String(text.to_string()));
    }
    serde_json::Value::Object(map)
}

#[test]
fn names_of_the_registered_templates() {
    assert_eq!(template_name(&EmailTemplate::Otp), Some("otp"));
    assert_eq!(template_name(&EmailTemplate::Otp2FA), Some("otp_2fa"));
    assert_eq!(template_name(&EmailTemplate::Welcome), Some("welcome"));
    assert_eq!(template_name(&EmailTemplate::PasswordReset), Some("password_reset"));
    assert_eq!(template_name(&EmailTemplate::LicenseCreated), Some("license_created"));
    assert_eq!(template_name(&EmailTemplate::Custom), None);
}

#[test]
fn renders_registered_template_with_data_and_year() {
    let data = object(&[("otp", "123456"), ("email", "a@x.com")]);
    let html = engine().render_in_year(&EmailTemplate::Otp, &data, "2031").unwrap();
    assert_eq!(html, "<p>Your code is 123456 for a@x.com (c) 2031</p>");
}

#[test]
fn each_template_is_registered_under_its_name() {
    let e = engine();
    let data = object(&[("otp", "9"), ("name", "Ada"), ("link", "http://x/?a=1&b=2")]);
    assert_eq!(e.render_in_year(&EmailTemplate::Otp2FA, &data, "1").unwrap(), "<p>Login code 9</p>");
    assert_eq!(e.render_in_year(&EmailTemplate::Welcome, &data, "1").unwrap(), "Welcome, Ada!");
    assert_eq!(
        e.render_in_year(&EmailTemplate::PasswordReset, &data, "1").unwrap(),
        "Reset: http://x/?a=1&b=2"
    );
    assert_eq!(e.render_in_year(&EmailTemplate::LicenseCreated, &data, "1999").unwrap(), "year=1999");
}

#[test]
fn year_given_replaces_year_in_data() {
    let data = object(&[("year", "1000")]);
    let html = engine().render_in_year(&EmailTemplate::LicenseCreated, &data, "2031").unwrap();
    assert_eq!(html, "year=2031");
}

#[test]
fn year_is_not_added_to_data_that_is_no_object() {
    let data = serde_json::Value::String("text".to_string());
    let html = engine().render_in_year(&EmailTemplate::LicenseCreated, &data, "2031").unwrap();
    assert_eq!(html, "year=");
}

#[test]
fn values_are_escaped_for_html() {
    let data = object(&[("name", "<Ada & Co>")]);
    let html = engine().render_in_year(&EmailTemplate::Welcome, &data, "2031").unwrap();
    assert_eq!(html, "Welcome, &lt;Ada &amp; Co&gt;!");
}

#[test]
fn render_uses_the_current_year() {
    let html = engine()
        .render(&EmailTemplate::LicenseCreated, &object(&[]))
        .unwrap();
    let year = html.strip_prefix("year=").unwrap();
    assert_eq!(year.len(), 4);
    assert!(year.chars().all(|c| c.is_ascii_digit()));
    assert_eq!(year, chrono::Utc::now().format("%Y").to_string());
}

#[test]
fn custom_message_is_its_html_member_unchanged() {
    let data = object(&[("html", "<h1>{{not a template}}</h1>"), ("year", "1")]);
    let e = engine();
    assert_eq!(e.render(&EmailTemplate::Custom, &data).unwrap(), "<h1>{{not a template}}</h1>");
    assert_eq!(
        e.render_in_year(&EmailTemplate::Custom, &data, "2031").unwrap(),
        "<h1>{{not a template}}</h1>"
    );
}

#[test]
fn custom_message_without_html_fails() {
    let e = engine();
    let missing = e.render(&EmailTemplate::Custom, &object(&[("body", "x")])).unwrap_err();
    assert!(matches!(missing, RenderFailure::MissingHtml));
    assert_eq!(missing.message(), "Custom template requires 'html' field in data");
}

#[test]
fn custom_message_needs_html_to_be_text() {
    let mut map = serde_json::Map::new();
    map.insert("html".to_string(), serde_json::Value::Bool(true));
    let e = engine();
    let not_text = e.render(&EmailTemplate::Custom, &serde_json::Value::Object(map));
    assert!(matches!(not_text, Err(RenderFailure::MissingHtml)));
    let no_object = e.render(&EmailTemplate::Custom, &serde_json::Value::Null);
    assert!(matches!(no_object, Err(RenderFailure::MissingHtml)));
}

#[test]
fn malformed_source_gives_no_engine() {
    let mut bad = sources();
    bad.welcome = "{{#if name}}never closed".to_string();
    assert!(TemplateEngine::new(&bad).is_none());
    let mut bad_last = sources();
    bad_last.license_created = "{{".to_string();
    assert!(TemplateEngine::new(&bad_last).is_none());
    assert!(TemplateEngine::new(&sources()).is_some());
}

#[test]
fn engine_error_is_reported_with_its_message() {
    let mut failing = sources();
    failing.welcome = "{{#each}}x{{/each}}".to_string();
    let e = TemplateEngine::new(&failing).expect("the source is well-formed");
    let failure = e
        .render_in_year(&EmailTemplate::Welcome, &object(&[]), "2031")
        .unwrap_err();
    match &failure {
        RenderFailure::Engine(inner) => assert_eq!(failure.message(), inner.to_string()),
        RenderFailure::MissingHtml => panic!("the engine failed, not the data"),
    }
    assert!(!failure.message().is_empty());
    assert!(failure.message().contains("each"));
}

#[test]
fn partial_tags_are_found_in_every_form() {
    for source in [
        "{{> other}}",
        "{{>other}}",
        "{{#> layout}}body{{/layout}}",
        "{{~> other}}",
        "{{~#> other}}x{{/other}}",
        "{{ \t\r\n~ # > other}}",
        "{{> (lookup . 'name')}}",
        "<p>before</p>{{> other}}<p>after</p>",
        "{{{> other}}}",
        "{{>",
        "héllo wörld {{> other}}",
        "{{name}}{{#if a}}{{> other}}{{/if}}",
    ] {
        assert!(holds_partial_tag(source), "{:?}", source);
    }
}

#[test]
fn other_tags_and_text_hold_no_partial_tag() {
    for source in [
        "",
        "{",
        "{{",
        "{{ ~ #",
        "plain text",
        "<p>a > b</p>",
        "<p>{{name}}</p>",
        "{{x}} > {{y}}",
        "{ {> other}}",
        "{> other}",
        "{{!> a comment}}",
        "{{#if a}}>{{/if}}",
        "{{#each items}}<li>{{this}}</li>{{/each}}",
        "{{{raw}}} -> {{&raw}}",
        "{{a}>}}",
        "{{*inline}}",
    ] {
        assert!(!holds_partial_tag(source), "{:?}", source);
    }
}

#[test]
fn templates_that_pull_in_each_other_give_no_engine() {
    let mut looped = sources();
    looped.otp = "{{> welcome}}".to_string();
    looped.welcome = "{{> otp}}".to_string();
    assert!(TemplateEngine::new(&looped).is_none());
    let mut block = sources();
    block.password_reset = "{{#> welcome}}x{{/welcome}}".to_string();
    assert!(TemplateEngine::new(&block).is_none());
    let mut own = sources();
    own.license_created = "{{#*inline \"x\"}}{{> x}}{{/inline}}{{> x}}".to_string();
    assert!(TemplateEngine::new(&own).is_none());
}

fn nested(open: &str, close: &str, depth: usize) -> String {
    let mut source = String::new();
    for _ in 0..depth {
        source.push_str(open);
    }
    source.push('x');
    for _ in 0..depth {
        source.push_str(close);
    }
    source
}

#[test]
fn nesting_is_bounded_by_the_opening_signs_inside_tags() {
    assert_eq!(MAX_NESTING, 100);
    // one sign for every tag, the opening and the closing ones
    assert!(!nests_too_deep(&nested("{{#if a}}", "{{/if}}", 50)));
    assert!(nests_too_deep(&nested("{{#if a}}", "{{/if}}", 51)));
    // flat tags count like nested ones
    assert!(!nests_too_deep(&"{{a}}".repeat(100)));
    assert!(nests_too_deep(&"{{a}}".repeat(101)));
    // subexpressions: one for the tag, one for every parenthesis
    assert!(!nests_too_deep(&format!("{{{{a {}}}}}", nested("(b ", ")", 99))));
    assert!(nests_too_deep(&format!("{{{{a {}}}}}", nested("(b ", ")", 100))));
    // signs outside of tags are not counted
    let css = "body { margin: 0 } a { color: rgb(0, 0, 0) } [x] ".repeat(200);
    assert!(!nests_too_deep(&css));
    assert!(!nests_too_deep(&format!("{}{{{{name}}}}{}", css, css)));
    assert!(!nests_too_deep(""));
}

#[test]
fn a_quote_in_a_tag_makes_the_rest_count() {
    let css = "a { color: rgb(0, 0, 0) } ".repeat(60);
    assert!(!nests_too_deep(&format!("{{{{#if a}}}}x{{{{/if}}}}{}", css)));
    assert!(nests_too_deep(&format!("{{{{#if (eq a \"b\")}}}}x{{{{/if}}}}{}", css)));
    assert!(nests_too_deep(&format!("{{{{a 'b'}}}}{}", css)));
    assert!(nests_too_deep(&format!("{{{{a [b]}}}}{}", css)));
    // a text that holds closing braces does not end the tag
    let hidden = format!("{{{{a \"}}}}\" {}}}}}", nested("(b ", ")", 100));
    assert!(nests_too_deep(&hidden));
}

#[test]
fn tame_sources_pull_in_nothing_and_nest_little() {
    assert!(is_tame("<p>{{name}}</p>"));
    assert!(is_tame(&nested("{{#if a}}", "{{/if}}", 50)));
    assert!(!is_tame(&nested("{{#if a}}", "{{/if}}", 51)));
    assert!(!is_tame("{{> other}}"));
}

#[test]
fn deeply_nested_source_gives_no_engine() {
    for depth in [51, 300, 5000] {
        let mut deep = sources();
        deep.welcome = nested("{{#if name}}", "{{/if}}", depth);
        assert!(TemplateEngine::new(&deep).is_none());
    }
    let mut chain = sources();
    chain.welcome = format!("{{{{#if a}}}}x{}{{{{/if}}}}", "{{else if a}}y".repeat(500));
    assert!(TemplateEngine::new(&chain).is_none());
    let mut parens = sources();
    parens.welcome = format!("{{{{lookup {} }}}}", nested("(lookup ", " 'a')", 400));
    assert!(TemplateEngine::new(&parens).is_none());
}

#[test]
fn nesting_within_the_bound_is_rendered() {
    let mut deep = sources();
    deep.welcome = nested("{{#if name}}", "{{/if}}", 50);
    let e = TemplateEngine::new(&deep).expect("within the bound");
    let html = e
        .render_in_year(&EmailTemplate::Welcome, &object(&[("name", "Ada")]), "2031")
        .unwrap();
    assert_eq!(html, "x");
    assert_eq!(
        e.render_in_year(&EmailTemplate::Welcome, &object(&[]), "2031").unwrap(),
        ""
    );
}
