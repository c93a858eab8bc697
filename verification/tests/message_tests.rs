use fluent_static::ast;
use fluent_static::message::Message;

fn conv_resource(r: fluent_syntax::ast::Resource<String>) -> ast::Resource {
    let mut body = Vec::new();
    for e in r.body {
        body.push(conv_entry(e));
    }
    ast::Resource { body }
}

fn conv_entry(e: fluent_syntax::ast::Entry<String>) -> ast::Entry {
    match e {
        fluent_syntax::ast::Entry::Message(m) => ast::Entry::Message(conv_message(m)),
        fluent_syntax::ast::Entry::Term(t) => ast::Entry::Term(conv_term(t)),
        _ => ast::Entry::Comment(ast::Comment { content: Vec::new() }),
    }
}

fn conv_message(m: fluent_syntax::ast::Message<String>) -> ast::Message {
    ast::Message {
        id: ast::Identifier { name: m.id.name },
        value: m.value.map(conv_pattern),
        attributes: m.attributes.into_iter().map(conv_attribute).collect(),
        comment: None,
    }
}

fn conv_term(t: fluent_syntax::ast::Term<String>) -> ast::Term {
    ast::Term {
        id: ast::Identifier { name: t.id.name },
        value: conv_pattern(t.value),
        attributes: t.attributes.into_iter().map(conv_attribute).collect(),
        comment: None,
    }
}

fn conv_attribute(a: fluent_syntax::ast::Attribute<String>) -> ast::Attribute {
    ast::Attribute { id: ast::Identifier { name: a.id.name }, value: conv_pattern(a.value) }
}

fn conv_pattern(p: fluent_syntax::ast::Pattern<String>) -> ast::Pattern {
    ast::Pattern { elements: p.elements.into_iter().map(conv_element).collect() }
}

fn conv_element(e: fluent_syntax::ast::PatternElement<String>) -> ast::PatternElement {
    match e {
        fluent_syntax::ast::PatternElement::TextElement { value } => {
            ast::PatternElement::TextElement { value }
        }
        fluent_syntax::ast::PatternElement::Placeable { expression } => {
            ast::PatternElement::Placeable { expression: conv_expression(expression) }
        }
    }
}

fn conv_expression(e: fluent_syntax::ast::Expression<String>) -> ast::Expression {
    match e {
        fluent_syntax::ast::Expression::Select { selector, variants } => ast::Expression::Select {
            selector: conv_inline(selector),
            variants: variants.into_iter().map(conv_variant).collect(),
        },
        fluent_syntax::ast::Expression::Inline(ie) => ast::Expression::Inline(conv_inline(ie)),
    }
}

fn conv_variant(v: fluent_syntax::ast::Variant<String>) -> ast::Variant {
    ast::Variant { key: conv_variant_key(v.key), value: conv_pattern(v.value), default: v.default }
}

fn conv_variant_key(k: fluent_syntax::ast::VariantKey<String>) -> ast::VariantKey {
    match k {
        fluent_syntax::ast::VariantKey::Identifier { name } => ast::VariantKey::Identifier { name },
        fluent_syntax::ast::VariantKey::NumberLiteral { value } => {
            ast::VariantKey::NumberLiteral { value }
        }
    }
}

fn conv_call_args(a: fluent_syntax::ast::CallArguments<String>) -> ast::CallArguments {
    ast::CallArguments {
        positional: a.positional.into_iter().map(conv_inline).collect(),
        named: a
            .named
            .into_iter()
            .map(|n| ast::NamedArgument {
                name: ast::Identifier { name: n.name.name },
                value: conv_inline(n.value),
            })
            .collect(),
    }
}

fn conv_inline(ie: fluent_syntax::ast::InlineExpression<String>) -> ast::InlineExpression {
    match ie {
        fluent_syntax::ast::InlineExpression::StringLiteral { value } => {
            ast::InlineExpression::StringLiteral { value }
        }
        fluent_syntax::ast::InlineExpression::NumberLiteral { value } => {
            ast::InlineExpression::NumberLiteral { value }
        }
        fluent_syntax::ast::InlineExpression::FunctionReference { id, arguments } => {
            ast::InlineExpression::FunctionReference {
                id: ast::Identifier { name: id.name },
                arguments: conv_call_args(arguments),
            }
        }
        fluent_syntax::ast::InlineExpression::MessageReference { id, attribute } => {
            ast::InlineExpression::MessageReference {
                id: ast::Identifier { name: id.name },
                attribute: attribute.map(|a| ast::Identifier { name: a.name }),
            }
        }
        fluent_syntax::ast::InlineExpression::TermReference { id, attribute, arguments } => {
            ast::InlineExpression::TermReference {
                id: ast::Identifier { name: id.name },
                attribute: attribute.map(|a| ast::Identifier { name: a.name }),
                arguments: arguments.map(conv_call_args),
            }
        }
        fluent_syntax::ast::InlineExpression::VariableReference { id } => {
            ast::InlineExpression::VariableReference { id: ast::Identifier { name: id.name } }
        }
        fluent_syntax::ast::InlineExpression::Placeable { expression } => {
            ast::InlineExpression::Placeable { expression: Box::new(conv_expression(*expression)) }
        }
    }
}

fn parse(content: &str) -> Vec<ast::Message> {
    let resource = fluent_syntax::parser::parse(content.to_string()).unwrap();
    let resource = conv_resource(resource);
    resource
        .body
        .into_iter()
        .filter_map(|entry| {
            if let ast::Entry::Message(message) = entry {
                Some(message)
            } else {
                None
            }
        })
        .collect()
}

#[test]
fn multiline_message() {
    let resource = "test = foo\n    bar\n\ntest1 = foo bar";
    let msg = parse(resource).into_iter().next().unwrap();

    let msg = Message::parse(&msg).unwrap();

    assert_eq!("test", msg.name())
}

#[test]
fn message_with_selector() {
    let resource = "\ntest = \n  {\n    $foo ->\n       [one] -> bar\n       *[other] -> { $baz }\n  }\n";
    let msg = parse(resource).into_iter().next().unwrap();

    let msg = Message::parse(&msg).unwrap();

    assert_eq!("test", msg.name());
    assert_eq!(2, msg.vars().len());
    let mut vars = msg.vars().iter();
    assert_eq!("foo", vars.next().unwrap().name);
    assert_eq!("baz", vars.next().unwrap().name);
}

#[test]
fn message_variables_order() {
    let resource = "test = foo { $b } { $a }";
    let msg = parse(resource).into_iter().next().unwrap();

    let msg = Message::parse(&msg).unwrap();

    assert_eq!("test", msg.name());
    assert_eq!(2, msg.vars().len());
    let mut vars = msg.vars().iter();
    assert_eq!("b", &vars.next().unwrap().name);
    assert_eq!("a", &vars.next().unwrap().name);
}

#[test]
fn message_with_term_reference() {
    let resource = "test = foo { -test1 }\n-test1 = foo bar";
    let msg = parse(resource).into_iter().next().unwrap();

    let msg = Message::parse(&msg).unwrap();

    assert_eq!("test", msg.name());
    assert_eq!(0, msg.vars().len());
}

#[test]
fn message_with_parameterized_term_reference() {
    let resource = "test = foo { -test1 }\n-test1 = foo { $bar }";
    let msg = parse(resource).into_iter().next().unwrap();

    let msg = Message::parse(&msg).unwrap();

    assert_eq!("test", msg.name());
    assert_eq!(0, msg.vars().len());
}

#[test]
fn message_with_simple_function() {
    let resource = "test = foo { FOO($baz) }\n-test1 = foo bar";
    let msg = parse(resource).into_iter().next().unwrap();

    let msg = Message::parse(&msg).unwrap();

    assert_eq!("test", msg.name());
    assert_eq!(1, msg.vars().len());
    let mut vars = msg.vars().iter();
    assert_eq!("baz", vars.next().unwrap().name);
}

#[test]
fn message_with_function_with_named_args() {
    let resource = "test = foo { FOO($baz, bar: \"foo\") }\n-test1 = foo bar";
    let msg = parse(resource).into_iter().next().unwrap();

    let msg = Message::parse(&msg).unwrap();

    assert_eq!("test", msg.name());
    assert_eq!(1, msg.vars().len());
    let mut vars = msg.vars().iter();
    assert_eq!("baz", vars.next().unwrap().name);
}

#[test]
fn message_with_message_reference() {
    let resource = "test = foo { test1 }\ntest1 = foo { $bar }";
    let msg = parse(resource).into_iter().next().unwrap();

    let msg = Message::parse(&msg).unwrap();

    assert_eq!("test", msg.name());
    assert_eq!(0, msg.vars().len());
}

#[test]
fn message_with_simple_attributes() {
    let resource = "test-attrs = foo { $test1 }\n  .attr2=bar\n  .attr1=baz\ntest1 = foo { $bar }";
    let msg = parse(resource).into_iter().next().unwrap();

    let msg = Message::parse(&msg).unwrap();

    assert_eq!("test-attrs", msg.name());
    assert_eq!(1, msg.vars().len());

    let mut attrs = msg.attrs().into_iter();
    let attr = attrs.next().unwrap();
    assert_eq!("test-attrs", attr.name());
    assert!(attr.vars().is_empty());
    assert_eq!("test_attrs_attr_2", attr.function_ident());
    let attr = attrs.next().unwrap();
    assert_eq!("test-attrs", attr.name());
    assert!(attr.vars().is_empty());
    assert_eq!("test_attrs_attr_1", attr.function_ident());
}

#[test]
fn message_with_variable_attributes() {
    let resource =
        "test-attrs = foo { $test1 }\n  .attr2=bar\n  .attr1=attr { $baz }\ntest1 = foo { $bar }";
    let msg = parse(resource).into_iter().next().unwrap();

    let msg = Message::parse(&msg).unwrap();

    assert_eq!("test-attrs", msg.name());
    assert_eq!(1, msg.vars().len());

    let mut attrs = msg.attrs().into_iter();
    let attr = attrs.next().unwrap();
    assert_eq!("test-attrs", attr.name());
    assert!(attr.vars().is_empty());
    let attr = attrs.next().unwrap();
    assert_eq!("test-attrs", attr.name());
    assert_eq!(1, attr.vars().len());
    assert_eq!("baz", attr.vars().iter().next().unwrap().name);
}
