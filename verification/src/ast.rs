use vstd::prelude::*;

verus! {

/// The parsed resource tree the compiler consumes. An external parser
/// produces it from source text; here it is plain data. The shapes follow
/// the resource syntax: a resource is a list of entries, an entry is a
/// message, a term, or a comment, and patterns interleave literal text
/// with placeable expressions.
#[derive(Debug)]
pub struct Resource {
    pub body: Vec<Entry>,
}

#[derive(Debug)]
pub enum Entry {
    Message(Message),
    Term(Term),
    Comment(Comment),
}

#[derive(Debug)]
pub struct Identifier {
    pub name: String,
}

#[derive(Debug)]
pub struct Message {
    pub id: Identifier,
    pub value: Option<Pattern>,
    pub attributes: Vec<Attribute>,
    pub comment: Option<Comment>,
}

#[derive(Debug)]
pub struct Term {
    pub id: Identifier,
    pub value: Pattern,
    pub attributes: Vec<Attribute>,
    pub comment: Option<Comment>,
}

#[derive(Debug)]
pub struct Pattern {
    pub elements: Vec<PatternElement>,
}

#[derive(Debug)]
pub enum PatternElement {
    TextElement { value: String },
    Placeable { expression: Expression },
}

#[derive(Debug)]
pub struct Attribute {
    pub id: Identifier,
    pub value: Pattern,
}

#[derive(Debug)]
pub struct Variant {
    pub key: VariantKey,
    pub value: Pattern,
    pub default: bool,
}

#[derive(Debug)]
pub enum VariantKey {
    Identifier { name: String },
    NumberLiteral { value: String },
}

#[derive(Debug)]
pub struct Comment {
    pub content: Vec<String>,
}

#[derive(Debug)]
pub struct CallArguments {
    pub positional: Vec<InlineExpression>,
    pub named: Vec<NamedArgument>,
}

#[derive(Debug)]
pub struct NamedArgument {
    pub name: Identifier,
    pub value: InlineExpression,
}

#[derive(Debug)]
pub enum InlineExpression {
    StringLiteral { value: String },
    NumberLiteral { value: String },
    FunctionReference { id: Identifier, arguments: CallArguments },
    MessageReference { id: Identifier, attribute: Option<Identifier> },
    TermReference { id: Identifier, attribute: Option<Identifier>, arguments: Option<CallArguments> },
    VariableReference { id: Identifier },
    Placeable { expression: Box<Expression> },
}

#[derive(Debug)]
pub enum Expression {
    Select { selector: InlineExpression, variants: Vec<Variant> },
    Inline(InlineExpression),
}

} // verus!
