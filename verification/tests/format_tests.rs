use fluent_static::ast;

fn conv_resource(r: fluent_syntax::ast::Resource<String>) -> ast::Resource {
    let mut body = Vec::new();
    for e in r.body {
        body.push(conv_entry(e));
    }
    ast::Resource { body }
}

fn conv_entry(e: fluent_syntax::ast::Entry<String>) -> ast::Entry {
    match e {
        fluent_syntax::ast::Entry::Message(m) => ast::Entry::Message(conv_message(m)),
        fluent_syntax::ast::Entry::Term(t) => ast::Entry::Term(conv_term(t)),
        _ => ast::Entry::Comment(ast::Comment { content: Vec::new() }),
    }
}

fn conv_message(m: fluent_syntax::ast::Message<String>) -> ast::Message {
    ast::Message {
        id: ast::Identifier { name: m.id.name },
        value: m.value.map(conv_pattern),
        attributes: m.attributes.into_iter().map(conv_attribute).collect(),
        comment: None,
    }
}

fn conv_term(t: fluent_syntax::ast::Term<String>) -> ast::Term {
    ast::Term {
        id: ast::Identifier { name: t.id.name },
        value: conv_pattern(t.value),
        attributes: t.attributes.into_iter().map(conv_attribute).collect(),
        comment: None,
    }
}

fn conv_attribute(a: fluent_syntax::ast::Attribute<String>) -> ast::Attribute {
    ast::Attribute { id: ast::Identifier { name: a.id.name }, value: conv_pattern(a.value) }
}

fn conv_pattern(p: fluent_syntax::ast::Pattern<String>) -> ast::Pattern {
    ast::Pattern { elements: p.elements.into_iter().map(conv_element).collect() }
}

fn conv_element(e: fluent_syntax::ast::PatternElement<String>) -> ast::PatternElement {
    match e {
        fluent_syntax::ast::PatternElement::TextElement { value } => {
            ast::PatternElement::TextElement { value }
        }
        fluent_syntax::ast::PatternElement::Placeable { expression } => {
            ast::PatternElement::Placeable { expression: conv_expression(expression) }
        }
    }
}

fn conv_expression(e: fluent_syntax::ast::Expression<String>) -> ast::Expression {
    match e {
        fluent_syntax::ast::Expression::Select { selector, variants } => ast::Expression::Select {
            selector: conv_inline(selector),
            variants: variants.into_iter().map(conv_variant).collect(),
        },
        fluent_syntax::ast::Expression::Inline(ie) => ast::Expression::Inline(conv_inline(ie)),
    }
}

fn conv_variant(v: fluent_syntax::ast::Variant<String>) -> ast::Variant {
    ast::Variant { key: conv_variant_key(v.key), value: conv_pattern(v.value), default: v.default }
}

fn conv_variant_key(k: fluent_syntax::ast::VariantKey<String>) -> ast::VariantKey {
    match k {
        fluent_syntax::ast::VariantKey::Identifier { name } => ast::VariantKey::Identifier { name },
        fluent_syntax::ast::VariantKey::NumberLiteral { value } => {
            ast::VariantKey::NumberLiteral { value }
        }
    }
}

fn conv_call_args(a: fluent_syntax::ast::CallArguments<String>) -> ast::CallArguments {
    ast::CallArguments {
        positional: a.positional.into_iter().map(conv_inline).collect(),
        named: a
            .named
            .into_iter()
            .map(|n| ast::NamedArgument {
                name: ast::Identifier { name: n.name.name },
                value: conv_inline(n.value),
            })
            .collect(),
    }
}

fn conv_inline(ie: fluent_syntax::ast::InlineExpression<String>) -> ast::InlineExpression {
    match ie {
        fluent_syntax::ast::InlineExpression::StringLiteral { value } => {
            ast::InlineExpression::StringLiteral { value }
        }
        fluent_syntax::ast::InlineExpression::NumberLiteral { value } => {
            ast::InlineExpression::NumberLiteral { value }
        }
        fluent_syntax::ast::InlineExpression::FunctionReference { id, arguments } => {
            ast::InlineExpression::FunctionReference {
                id: ast::Identifier { name: id.name },
                arguments: conv_call_args(arguments),
            }
        }
        fluent_syntax::ast::InlineExpression::MessageReference { id, attribute } => {
            ast::InlineExpression::MessageReference {
                id: ast::Identifier { name: id.name },
                attribute: attribute.map(|a| ast::Identifier { name: a.name }),
            }
        }
        fluent_syntax::ast::InlineExpression::TermReference { id, attribute, arguments } => {
            ast::InlineExpression::TermReference {
                id: ast::Identifier { name: id.name },
                attribute: attribute.map(|a| ast::Identifier { name: a.name }),
                arguments: arguments.map(conv_call_args),
            }
        }
        fluent_syntax::ast::InlineExpression::VariableReference { id } => {
            ast::InlineExpression::VariableReference { id: ast::Identifier { name: id.name } }
        }
        fluent_syntax::ast::InlineExpression::Placeable { expression } => {
            ast::InlineExpression::Placeable { expression: Box::new(conv_expression(*expression)) }
        }
    }
}

use fluent_static::bundle::MessageBundleBuilder;
use fluent_static::error::Error;
use fluent_static::number::Number;
use fluent_static::value::Value;

fn build_bundle(default: &str, resources: &[(&str, &str)]) -> fluent_static::bundle::MessageBundleApi {
    let mut b = MessageBundleBuilder::new("Messages");
    b.with_default_language(default);
    for (lang, text) in resources {
        let res = conv_resource(fluent_syntax::parser::parse(text.to_string()).unwrap());
        b.add_resource(lang, &res).unwrap();
    }
    b.build().unwrap()
}

fn build_err(default: &str, resources: &[(&str, &str)]) -> Error {
    let mut b = MessageBundleBuilder::new("Messages");
    b.with_default_language(default);
    for (lang, text) in resources {
        let res = conv_resource(fluent_syntax::parser::parse(text.to_string()).unwrap());
        match b.add_resource(lang, &res) {
            Ok(()) => {}
            Err(e) => return e,
        }
    }
    match b.build() {
        Ok(_) => panic!("expected a build error"),
        Err(e) => e,
    }
}

fn no_args() -> Vec<(String, Value)> {
    Vec::new()
}

fn text_arg(name: &str, v: &str) -> (String, Value) {
    (name.to_string(), Value::text(v))
}

fn num_arg(name: &str, v: i64) -> (String, Value) {
    (name.to_string(), Value::number(Number::I64(v)))
}

#[test]
fn selector_exact_number_and_default() {
    let api = build_bundle(
        "en",
        &[("en", "test-numbers = { $n ->\n    [0] Zero\n   *[other] { $n }\n }")],
    );
    let zero = api.format_message("en", "test-numbers", &vec![num_arg("n", 0)]).unwrap();
    assert_eq!("Zero", zero.as_str());
    let five = api.format_message("en", "test-numbers", &vec![num_arg("n", 5)]).unwrap();
    assert_eq!("5", five.as_str());
    let neg = api.format_message("en", "test-numbers", &vec![num_arg("n", -3)]).unwrap();
    assert_eq!("-3", neg.as_str());
}

#[test]
fn plural_fallback_polish() {
    let ftl = "photos = { $n ->\n    [one] one photo\n    [few] few photos\n    [many] many photos\n   *[other] other photos\n }";
    let api = build_bundle("pl", &[("pl", ftl)]);
    let few = api.format_message("pl", "photos", &vec![num_arg("n", 2)]).unwrap();
    assert_eq!("few photos", few.as_str());
    let many = api.format_message("pl", "photos", &vec![num_arg("n", 5)]).unwrap();
    assert_eq!("many photos", many.as_str());
    let one = api.format_message("pl", "photos", &vec![num_arg("n", 1)]).unwrap();
    assert_eq!("one photo", one.as_str());
}

#[test]
fn plural_fallback_english_no_few() {
    let ftl = "photos = { $n ->\n    [few] few photos\n   *[other] other photos\n }";
    let api = build_bundle("en", &[("en", ftl)]);
    // English has no `few` cardinal category: 2 falls through to the default
    let m = api.format_message("en", "photos", &vec![num_arg("n", 2)]).unwrap();
    assert_eq!("other photos", m.as_str());
}

#[test]
fn round_trip_two_languages() {
    let api = build_bundle(
        "en",
        &[
            ("en", "hello = hello\nhello-name = hello { $name }"),
            ("it", "hello = ciao\nhello-name = ciao { $name }"),
        ],
    );
    assert_eq!(2, api.entry_points.len());
    let it = api.format_message("it", "hello-name", &vec![text_arg("name", "foo")]).unwrap();
    assert_eq!("ciao foo", it.as_str());
    let en = api.format_message("en", "hello-name", &vec![text_arg("name", "foo")]).unwrap();
    assert_eq!("hello foo", en.as_str());
    let plain = api.format_message("it", "hello", &no_args()).unwrap();
    assert_eq!("ciao", plain.as_str());
    // an unsupported tag serves the default language
    let fr = api.format_message("fr", "hello", &no_args()).unwrap();
    assert_eq!("hello", fr.as_str());
}

#[test]
fn duplicate_entry_id_rejected() {
    let e = build_err("en", &[("en", "dup = one\ndup = two")]);
    match e {
        Error::DuplicateEntryId(id) => assert_eq!("dup", id),
        other => panic!("unexpected error {:?}", other),
    }
}

fn text_pattern(t: &str) -> ast::Pattern {
    ast::Pattern {
        elements: vec![ast::PatternElement::TextElement { value: t.to_string() }],
    }
}

fn select_message(id: &str, defaults: &[bool]) -> ast::Resource {
    let mut variants = Vec::new();
    for (i, d) in defaults.iter().enumerate() {
        variants.push(ast::Variant {
            key: ast::VariantKey::Identifier { name: format!("w{}", i) },
            value: text_pattern("x"),
            default: *d,
        });
    }
    let select = ast::Expression::Select {
        selector: ast::InlineExpression::VariableReference {
            id: ast::Identifier { name: "n".to_string() },
        },
        variants,
    };
    ast::Resource {
        body: vec![ast::Entry::Message(ast::Message {
            id: ast::Identifier { name: id.to_string() },
            value: Some(ast::Pattern {
                elements: vec![ast::PatternElement::Placeable { expression: select }],
            }),
            attributes: Vec::new(),
            comment: None,
        })],
    }
}

#[test]
fn selector_needs_exactly_one_default() {
    // the parser upstream already rejects these shapes; the compiler
    // re-validates them defensively on a hand-built tree
    let mut b = MessageBundleBuilder::new("Messages");
    b.with_default_language("en");
    let none = select_message("sel", &[false, false]);
    match b.add_resource("en", &none) {
        Err(Error::InvalidSelectorDefaultVariant { message_id }) => {
            assert_eq!("sel", message_id)
        }
        other => panic!("unexpected result {:?}", other),
    }
    let mut b2 = MessageBundleBuilder::new("Messages");
    b2.with_default_language("en");
    let two = select_message("sel", &[true, true]);
    match b2.add_resource("en", &two) {
        Err(Error::InvalidSelectorDefaultVariant { message_id }) => {
            assert_eq!("sel", message_id)
        }
        other => panic!("unexpected result {:?}", other),
    }
}

#[test]
fn reference_resolution_order() {
    // a reference to an earlier entry resolves
    let api = build_bundle("en", &[("en", "base = base text\nuses = before { base } after")]);
    let m = api.format_message("en", "uses", &no_args()).unwrap();
    assert_eq!("before base text after", m.as_str());
    // a reference to an undefined entry names both sides
    let e = build_err("en", &[("en", "uses = before { missing } after")]);
    match e {
        Error::UndeclaredMessageReference { entry_id, reference_id } => {
            assert_eq!("uses", entry_id);
            assert_eq!("missing", reference_id);
        }
        other => panic!("unexpected error {:?}", other),
    }
    // a reference to a later entry is undeclared at its use
    let e = build_err("en", &[("en", "uses = { base }\nbase = base text")]);
    match e {
        Error::UndeclaredMessageReference { entry_id, reference_id } => {
            assert_eq!("uses", entry_id);
            assert_eq!("base", reference_id);
        }
        other => panic!("unexpected error {:?}", other),
    }
}

#[test]
fn term_argument_name_checking() {
    let ftl = "-who = { $first } { $last }\ngreet = hi { -who(first: \"Ada\", last: \"Byron\") }";
    let api = build_bundle("en", &[("en", ftl)]);
    let m = api.format_message("en", "greet", &no_args()).unwrap();
    assert_eq!("hi Ada Byron", m.as_str());
    // the same call with the arguments written in the other order
    let ftl2 = "-who = { $first } { $last }\ngreet = hi { -who(last: \"Byron\", first: \"Ada\") }";
    let api2 = build_bundle("en", &[("en", ftl2)]);
    let m2 = api2.format_message("en", "greet", &no_args()).unwrap();
    assert_eq!("hi Ada Byron", m2.as_str());
    // an argument the term does not declare is refused
    let e = build_err("en", &[("en", "-who = { $first }\ngreet = hi { -who(nick: \"A\") }")]);
    match e {
        Error::UndeclaredTermArgument { term_id, arg_name } => {
            assert_eq!("who", term_id);
            assert_eq!("nick", arg_name);
        }
        other => panic!("unexpected error {:?}", other),
    }
}

#[test]
fn term_reference_inline() {
    let ftl = "-brand = Fluent\nabout = about { -brand } here";
    let api = build_bundle("en", &[("en", ftl)]);
    let m = api.format_message("en", "about", &no_args()).unwrap();
    assert_eq!("about Fluent here", m.as_str());
}

#[test]
fn attributes_compile_and_format() {
    let ftl = "login = Log in\n  .tooltip = Click { $name } to log in";
    let api = build_bundle("en", &[("en", ftl)]);
    let m = api.format_message("en", "login.tooltip", &vec![text_arg("name", "here")]).unwrap();
    assert_eq!("Click here to log in", m.as_str());
    let base = api.format_message("en", "login", &no_args()).unwrap();
    assert_eq!("Log in", base.as_str());
}

#[test]
fn number_function_renders_decimal() {
    let ftl = "amount = n { NUMBER($v) }";
    let api = build_bundle("en", &[("en", ftl)]);
    let m = api.format_message("en", "amount", &vec![num_arg("v", 4242)]).unwrap();
    assert_eq!("n 4242", m.as_str());
    let text = api
        .format_message("en", "amount", &vec![text_arg("v", "11")])
        .unwrap();
    assert_eq!("n 11", text.as_str());
}

#[test]
fn number_literal_canonical_text() {
    let ftl = "pi-ish = { 3.1400 }";
    let api = build_bundle("en", &[("en", ftl)]);
    let m = api.format_message("en", "pi-ish", &no_args()).unwrap();
    assert_eq!("3.14", m.as_str());
}

#[test]
fn string_literal_as_selector_refused() {
    let e = build_err("en", &[("en", "sel = { \"lit\" ->\n   *[other] other\n }")]);
    match e {
        Error::UnsupportedFeature { feature, id } => {
            assert_eq!("Usage of string literal as a selector", feature);
            assert_eq!("sel", id);
        }
        other => panic!("unexpected error {:?}", other),
    }
}

#[test]
fn variable_as_term_argument_refused() {
    // the parser upstream refuses a raw variable in a term call; the
    // compiler re-validates it defensively on a hand-built tree
    let term = ast::Entry::Term(ast::Term {
        id: ast::Identifier { name: "who".to_string() },
        value: ast::Pattern {
            elements: vec![ast::PatternElement::Placeable {
                expression: ast::Expression::Inline(ast::InlineExpression::VariableReference {
                    id: ast::Identifier { name: "first".to_string() },
                }),
            }],
        },
        attributes: Vec::new(),
        comment: None,
    });
    let call = ast::Entry::Message(ast::Message {
        id: ast::Identifier { name: "greet".to_string() },
        value: Some(ast::Pattern {
            elements: vec![ast::PatternElement::Placeable {
                expression: ast::Expression::Inline(ast::InlineExpression::TermReference {
                    id: ast::Identifier { name: "who".to_string() },
                    attribute: None,
                    arguments: Some(ast::CallArguments {
                        positional: Vec::new(),
                        named: vec![ast::NamedArgument {
                            name: ast::Identifier { name: "first".to_string() },
                            value: ast::InlineExpression::VariableReference {
                                id: ast::Identifier { name: "name".to_string() },
                            },
                        }],
                    }),
                }),
            }],
        }),
        attributes: Vec::new(),
        comment: None,
    });
    let res = ast::Resource { body: vec![term, call] };
    let mut b = MessageBundleBuilder::new("Messages");
    b.with_default_language("en");
    match b.add_resource("en", &res) {
        Err(Error::UnsupportedFeature { feature, .. }) => {
            assert_eq!("Usage of variable reference as a term argument", feature);
        }
        other => panic!("unexpected result {:?}", other),
    }
}

#[test]
fn validation_reports_missing_language() {
    let e = build_err(
        "en",
        &[
            ("en", "hello = hello\nextra = more"),
            ("it", "hello = ciao"),
        ],
    );
    match e {
        Error::MessageBundleValidationError { bundle, entries } => {
            assert_eq!("Messages", bundle);
            assert_eq!(1, entries.len());
            assert_eq!("extra", entries[0].message_id);
            assert_eq!(vec!["en".to_string()], entries[0].defined_in_languages);
            assert_eq!(vec!["it".to_string()], entries[0].undefined_in_languages);
        }
        other => panic!("unexpected error {:?}", other),
    }
}

#[test]
fn validation_passes_when_uniform() {
    let api = build_bundle(
        "en",
        &[("en", "hello = hello"), ("it", "hello = ciao")],
    );
    assert_eq!(vec!["en".to_string(), "it".to_string()], api.supported_language_ids());
    assert_eq!("en", api.default_language_id());
}

#[test]
fn default_language_must_exist() {
    let e = build_err("fr", &[("en", "hello = hello")]);
    match e {
        Error::UnsupportedDefaultLanguage { lang } => assert_eq!("fr", lang),
        other => panic!("unexpected error {:?}", other),
    }
}

#[test]
fn public_key_unifies_variable_order() {
    // the two languages declare the variables in different orders, yet
    // they form one public entry point
    let api = build_bundle(
        "en",
        &[
            ("en", "pair = { $a } { $b }"),
            ("it", "pair = { $b } { $a }"),
        ],
    );
    assert_eq!(1, api.entry_points.len());
    let args = vec![text_arg("a", "x"), text_arg("b", "y")];
    let en = api.format_message("en", "pair", &args).unwrap();
    assert_eq!("x y", en.as_str());
    let it = api.format_message("it", "pair", &args).unwrap();
    assert_eq!("y x", it.as_str());
}

#[test]
fn bad_number_literal_is_invalid() {
    let e = build_err("en", &[("en", "sel = { $n ->\n    [9999999999999999999999999999999999999999] big\n   *[other] other\n }")]);
    match e {
        Error::InvalidLiteral(s) => {
            assert_eq!("9999999999999999999999999999999999999999", s)
        }
        other => panic!("unexpected error {:?}", other),
    }
}

#[test]
fn describe_error_text() {
    let e = Error::DuplicateEntryId("greeting".to_string());
    assert_eq!(
        "Found duplicated entry with ID 'greeting'",
        fluent_static::error::describe_error(&e)
    );
}

#[test]
fn string_selector_matches_word() {
    let ftl = "icon = { $gender ->\n    [male] his stream\n    [female] her stream\n   *[other] their stream\n }";
    let api = build_bundle("en", &[("en", ftl)]);
    let m = api.format_message("en", "icon", &vec![text_arg("gender", "female")]).unwrap();
    assert_eq!("her stream", m.as_str());
    let o = api.format_message("en", "icon", &vec![text_arg("gender", "robot")]).unwrap();
    assert_eq!("their stream", o.as_str());
}

#[test]
fn plural_keyword_accepts_matching_text() {
    // a plural-category variant also accepts the literal keyword as text
    let ftl = "photos = { $n ->\n    [one] one photo\n   *[other] other photos\n }";
    let api = build_bundle("en", &[("en", ftl)]);
    let m = api.format_message("en", "photos", &vec![text_arg("n", "one")]).unwrap();
    assert_eq!("one photo", m.as_str());
}

#[test]
fn message_without_value_formats_empty() {
    let ftl = "only-attrs =\n  .hint = a hint";
    let api = build_bundle("en", &[("en", ftl)]);
    let hint = api.format_message("en", "only-attrs.hint", &no_args()).unwrap();
    assert_eq!("a hint", hint.as_str());
    let base = api.format_message("en", "only-attrs", &no_args()).unwrap();
    assert_eq!("", base.as_str());
}

#[test]
fn unknown_function_renders_nothing() {
    let ftl = "odd = x{ MYSTERY($v) }y";
    let api = build_bundle("en", &[("en", ftl)]);
    let m = api.format_message("en", "odd", &vec![num_arg("v", 1)]).unwrap();
    assert_eq!("xy", m.as_str());
}

#[test]
fn unbound_variable_renders_nothing() {
    let ftl = "greet = hi { $name }!";
    let api = build_bundle("en", &[("en", ftl)]);
    let m = api.format_message("en", "greet", &no_args()).unwrap();
    assert_eq!("hi !", m.as_str());
}

#[test]
fn supported_languages_come_out_sorted() {
    let api = build_bundle(
        "fr",
        &[("fr", "hello = bonjour"), ("de", "hello = hallo")],
    );
    // the closed language set is emitted ascending, whatever the
    // registration order
    assert_eq!(vec!["de".to_string(), "fr".to_string()], api.supported_language_ids());
}
