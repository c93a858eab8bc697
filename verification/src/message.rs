use vstd::prelude::*;

use crate::ast;
use crate::casing::{snake_of, to_snake_case};
use crate::error::Error;
use crate::order::{insert_sorted, strictly_sorted, views_of};
use crate::strutil::str_eq;

verus! {

/// One variable a message's pattern uses, by source name.
#[derive(Debug, PartialEq, Eq)]
pub struct Var {
    pub name: String,
}

impl Clone for Var {
    fn clone(&self) -> (r: Self)
        ensures
            r == *self,
    {
        Var { name: self.name.clone() }
    }
}

impl Var {
    pub fn new(name: &str) -> (r: Var)
        ensures
            r.name@ == name@,
    {
        Var { name: name.to_owned() }
    }

    /// The binding name the variable would take in an emitted signature.
    pub fn ident(&self) -> (r: String)
        ensures
            r@ == snake_of(self.name@),
    {
        to_snake_case(self.name.as_str())
    }
}

/// The names of a variable list, in order.
pub open spec fn names_of_vars(vars: Seq<Var>) -> Seq<Seq<char>> {
    vars.map_values(|v: Var| v.name@)
}

/// The variables a pattern element list mentions, in traversal order,
/// with repeats kept.
pub open spec fn vars_of_elems(es: Seq<ast::PatternElement>) -> Seq<Seq<char>>
    decreases es,
{
    if es.len() == 0 {
        Seq::empty()
    } else {
        vars_of_elems(es.drop_last()) + vars_of_elem(es.last())
    }
}

pub open spec fn vars_of_elem(e: ast::PatternElement) -> Seq<Seq<char>>
    decreases e,
{
    match e {
        ast::PatternElement::TextElement { .. } => Seq::empty(),
        ast::PatternElement::Placeable { expression } => vars_of_expr(expression),
    }
}

pub open spec fn vars_of_expr(e: ast::Expression) -> Seq<Seq<char>>
    decreases e,
{
    match e {
        ast::Expression::Select { selector, variants } => vars_of_inline(selector)
            + vars_of_variants(variants@),
        ast::Expression::Inline(ie) => vars_of_inline(ie),
    }
}

pub open spec fn vars_of_variants(vs: Seq<ast::Variant>) -> Seq<Seq<char>>
    decreases vs,
{
    if vs.len() == 0 {
        Seq::empty()
    } else {
        vars_of_variants(vs.drop_last()) + vars_of_elems(vs.last().value.elements@)
    }
}

pub open spec fn vars_of_inline(ie: ast::InlineExpression) -> Seq<Seq<char>>
    decreases ie,
{
    match ie {
        ast::InlineExpression::StringLiteral { .. } => Seq::empty(),
        ast::InlineExpression::NumberLiteral { .. } => Seq::empty(),
        ast::InlineExpression::MessageReference { .. } => Seq::empty(),
        ast::InlineExpression::FunctionReference { arguments, .. } => vars_of_call(arguments),
        ast::InlineExpression::TermReference { arguments, .. } => match arguments {
            Some(a) => vars_of_call(a),
            None => Seq::empty(),
        },
        ast::InlineExpression::VariableReference { id } => seq![id.name@],
        ast::InlineExpression::Placeable { expression } => vars_of_expr(*expression),
    }
}

pub open spec fn vars_of_call(args: ast::CallArguments) -> Seq<Seq<char>>
    decreases args,
{
    vars_of_pos(args.positional@) + vars_of_named(args.named@)
}

pub open spec fn vars_of_pos(s: Seq<ast::InlineExpression>) -> Seq<Seq<char>>
    decreases s,
{
    if s.len() == 0 {
        Seq::empty()
    } else {
        vars_of_pos(s.drop_last()) + vars_of_inline(s.last())
    }
}

pub open spec fn vars_of_named(s: Seq<ast::NamedArgument>) -> Seq<Seq<char>>
    decreases s,
{
    if s.len() == 0 {
        Seq::empty()
    } else {
        vars_of_named(s.drop_last()) + vars_of_inline(s.last().value)
    }
}

/// One message header as the cross-language comparison sees it: its name,
/// its variables, and one child per attribute.
#[derive(Debug, PartialEq, Eq)]
pub struct Message {
    pub name: String,
    pub attribute_name: Option<String>,
    pub vars: Vec<Var>,
    pub attrs: Option<Vec<Message>>,
}

impl Message {
    /// Reads one parsed message header: the variables its pattern uses,
    /// in order of first mention, and one child per attribute.
    pub fn parse(message: &ast::Message) -> (r: Result<Message, Error>)
        ensures
            r matches Ok(msg) && msg.name@ == message.id.name@ && msg.attribute_name is None && (
            match message.value {
                Some(p) => names_of_vars(msg.vars@) == vars_of_elems(p.elements@),
                None => msg.vars@.len() == 0,
            }) && (match msg.attrs {
                Some(a) => message.attributes@.len() > 0 && a@.len()
                    == message.attributes@.len(),
                None => message.attributes@.len() == 0,
            }),
    {
        let vars = match &message.value {
            Some(p) => extract_variables(p),
            None => Vec::new(),
        };
        let attrs = extract_attributes(message.id.name.as_str(), &message.attributes);
        Ok(
            Message {
                name: message.id.name.clone(),
                attribute_name: None,
                vars,
                attrs,
            },
        )
    }

    pub fn name(&self) -> (r: &str)
        ensures
            r@ == self.name@,
    {
        self.name.as_str()
    }

    /// The binding name of this message or attribute in an emitted
    /// signature.
    pub fn function_ident(&self) -> (r: String)
        ensures
            match self.attribute_name {
                None => r@ == snake_of(self.name@),
                Some(a) => r@ == snake_of(self.name@) + seq!['_'] + snake_of(a@),
            },
    {
        let base = to_snake_case(self.name.as_str());
        match &self.attribute_name {
            None => base,
            Some(a) => {
                let mut out = base;
                out.append("_");
                proof {
                    reveal_strlit("_");
                    assert("_"@ =~= seq!['_']);
                }
                let snaked = to_snake_case(a.as_str());
                out.append(snaked.as_str());
                out
            },
        }
    }

    pub fn vars(&self) -> (r: &Vec<Var>)
        ensures
            r == &self.vars,
    {
        &self.vars
    }

    pub fn has_attrs(&self) -> (r: bool)
        ensures
            r == (self.attrs is Some),
    {
        match &self.attrs {
            Some(_) => true,
            None => false,
        }
    }

    pub fn attrs(&self) -> (r: Vec<&Message>)
        ensures
            match self.attrs {
                Some(a) => r@.len() == a@.len() && forall|i: int|
                    0 <= i < r@.len() ==> r@[i] == a@[i],
                None => r@.len() == 0,
            },
    {
        let mut out: Vec<&Message> = Vec::new();
        match &self.attrs {
            Some(a) => {
                let n = a.len();
                let mut i: usize = 0;
                while i < n
                    invariant
                        i <= n,
                        n == a@.len(),
                        out@.len() == i,
                        forall|j: int| 0 <= j < i ==> out@[j] == a@[j],
                    decreases n - i,
                {
                    out.push(&a[i]);
                    i = i + 1;
                }
                out
            },
            None => out,
        }
    }

    /// The comparison form of this message: the variable names sorted
    /// and deduplicated, so declaration order stops mattering.
    pub fn normalize(&self) -> (r: NormalizedMessage)
        ensures
            r.name@ == self.name@,
            r.attribute_name == self.attribute_name,
            strictly_sorted(views_of(r.vars@)),
            views_of(r.vars@).to_set() == names_of_vars(self.vars@).to_set(),
    {
        let mut sorted: Vec<String> = Vec::new();
        let n = self.vars.len();
        let mut i: usize = 0;
        while i < n
            invariant
                i <= n,
                n == self.vars@.len(),
                strictly_sorted(views_of(sorted@)),
                views_of(sorted@).to_set() == names_of_vars(self.vars@.subrange(0, i as int)).to_set(),
            decreases n - i,
        {
            proof {
                let pre = names_of_vars(self.vars@.subrange(0, i as int));
                let pre1 = names_of_vars(self.vars@.subrange(0, i as int + 1));
                assert(pre1.drop_last() =~= pre);
                assert(pre1.last() == self.vars@[i as int].name@);
                pre.lemma_push_to_set_commute(self.vars@[i as int].name@);
                assert(pre1 =~= pre.push(self.vars@[i as int].name@));
            }
            insert_sorted(&mut sorted, self.vars[i].name.as_str());
            i = i + 1;
        }
        proof {
            assert(self.vars@.subrange(0, n as int) =~= self.vars@);
        }
        let attrs = match &self.attrs {
            Some(a) => {
                let mut children: Vec<NormalizedMessage> = Vec::new();
                let m = a.len();
                let mut j: usize = 0;
                while j < m
                    invariant
                        j <= m,
                        m == a@.len(),
                    decreases m - j,
                {
                    let c = a[j].normalize_flat();
                    children.push(c);
                    j = j + 1;
                }
                Some(children)
            },
            None => None,
        };
        NormalizedMessage {
            name: self.name.clone(),
            attribute_name: self.attribute_name.clone(),
            vars: sorted,
            attrs,
        }
    }

    /// The comparison form of an attribute child, which has no children
    /// of its own.
    fn normalize_flat(&self) -> (r: NormalizedMessage)
        ensures
            r.name@ == self.name@,
            r.attribute_name == self.attribute_name,
            strictly_sorted(views_of(r.vars@)),
            views_of(r.vars@).to_set() == names_of_vars(self.vars@).to_set(),
            r.attrs is None,
    {
        let mut sorted: Vec<String> = Vec::new();
        let n = self.vars.len();
        let mut i: usize = 0;
        while i < n
            invariant
                i <= n,
                n == self.vars@.len(),
                strictly_sorted(views_of(sorted@)),
                views_of(sorted@).to_set() == names_of_vars(self.vars@.subrange(0, i as int)).to_set(),
            decreases n - i,
        {
            proof {
                let pre = names_of_vars(self.vars@.subrange(0, i as int));
                let pre1 = names_of_vars(self.vars@.subrange(0, i as int + 1));
                assert(pre1.drop_last() =~= pre);
                assert(pre1.last() == self.vars@[i as int].name@);
                pre.lemma_push_to_set_commute(self.vars@[i as int].name@);
                assert(pre1 =~= pre.push(self.vars@[i as int].name@));
            }
            insert_sorted(&mut sorted, self.vars[i].name.as_str());
            i = i + 1;
        }
        proof {
            assert(self.vars@.subrange(0, n as int) =~= self.vars@);
        }
        NormalizedMessage {
            name: self.name.clone(),
            attribute_name: self.attribute_name.clone(),
            vars: sorted,
            attrs: None,
        }
    }
}

/// A message header in comparison form: variables sorted and unique, so
/// two languages' headers are interchangeable exactly when these agree.
#[derive(Debug, PartialEq, Eq)]
pub struct NormalizedMessage {
    pub name: String,
    pub attribute_name: Option<String>,
    pub vars: Vec<String>,
    pub attrs: Option<Vec<NormalizedMessage>>,
}

/// A message followed by its attribute children, the order a generator
/// would emit their signatures in.
pub fn expand_message_attributes(msg: &Message) -> (r: Vec<&Message>)
    ensures
        r@.len() >= 1,
        r@[0] == msg,
        match msg.attrs {
            Some(a) => r@.len() == 1 + a@.len(),
            None => r@.len() == 1,
        },
{
    let mut out: Vec<&Message> = Vec::new();
    out.push(msg);
    match &msg.attrs {
        Some(a) => {
            let n = a.len();
            let mut i: usize = 0;
            while i < n
                invariant
                    i <= n,
                    n == a@.len(),
                    out@.len() == 1 + i,
                    out@[0] == msg,
                decreases n - i,
            {
                out.push(&a[i]);
                i = i + 1;
            }
            out
        },
        None => out,
    }
}

/// Reads the attribute children of one message header.
#[verifier::loop_isolation(false)]
fn extract_attributes(parent: &str, attributes: &Vec<ast::Attribute>) -> (r: Option<Vec<Message>>)
    ensures
        match r {
            Some(a) => attributes@.len() > 0 && a@.len() == attributes@.len(),
            None => attributes@.len() == 0,
        },
{
    if attributes.len() == 0 {
        return None;
    }
    let n = attributes.len();
    let mut out: Vec<Message> = Vec::new();
    let mut i: usize = 0;
    while i < n
        invariant
            i <= n,
            out@.len() == i,
        decreases n - i,
    {
        let vars = extract_variables(&attributes[i].value);
        out.push(
            Message {
                name: parent.to_owned(),
                attribute_name: Some(attributes[i].id.name.clone()),
                vars,
                attrs: None,
            },
        );
        i = i + 1;
    }
    Some(out)
}

/// Reads the variables a pattern mentions, in order of first traversal,
/// with repeats kept.
#[verifier::loop_isolation(false)]
pub fn extract_variables(pattern: &ast::Pattern) -> (r: Vec<Var>)
    ensures
        names_of_vars(r@) == vars_of_elems(pattern.elements@),
    decreases *pattern,
{
    let mut out: Vec<Var> = Vec::new();
    let n = pattern.elements.len();
    let mut i: usize = 0;
    proof {
        assert(names_of_vars(out@) =~= vars_of_elems(pattern.elements@.subrange(0, 0)));
        assert(pattern.elements@.subrange(0, 0) =~= Seq::<ast::PatternElement>::empty());
    }
    while i < n
        invariant
            i <= n,
            n == pattern.elements@.len(),
            names_of_vars(out@) == vars_of_elems(pattern.elements@.subrange(0, i as int)),
        decreases n - i,
    {
        proof {
            assert(decreases_to!(*pattern => pattern.elements@[i as int]));
        }
        match &pattern.elements[i] {
            ast::PatternElement::TextElement { .. } => {
                proof {
                    assert(vars_of_elem(pattern.elements@[i as int]) =~= Seq::<Seq<char>>::empty());
                }
            },
            ast::PatternElement::Placeable { expression } => {
                collect_expr(expression, &mut out);
                proof {
                    assert(vars_of_elem(pattern.elements@[i as int]) == vars_of_expr(*expression));
                }
            },
        }
        proof {
            let pre1 = pattern.elements@.subrange(0, i as int + 1);
            assert(pre1.drop_last() =~= pattern.elements@.subrange(0, i as int));
            assert(pre1.last() == pattern.elements@[i as int]);
            assert(names_of_vars(out@) =~= vars_of_elems(pre1));
        }
        i = i + 1;
    }
    proof {
        assert(pattern.elements@.subrange(0, n as int) =~= pattern.elements@);
    }
    out
}

/// Appends the variables one expression mentions.
#[verifier::loop_isolation(false)]
fn collect_expr(e: &ast::Expression, out: &mut Vec<Var>)
    ensures
        names_of_vars(final(out)@) == names_of_vars(old(out)@) + vars_of_expr(*e),
    decreases *e,
{
    match e {
        ast::Expression::Inline(ie) => {
            proof {
                assert(decreases_to!(*e => *ie));
            }
            collect_inline(ie, out);
        },
        ast::Expression::Select { selector, variants } => {
            proof {
                assert(decreases_to!(*e => *selector));
            }
            collect_inline(selector, out);
            let n = variants.len();
            let mut i: usize = 0;
            proof {
                assert(vars_of_variants(variants@.subrange(0, 0)) =~= Seq::<Seq<char>>::empty());
                assert(variants@.subrange(0, 0) =~= Seq::<ast::Variant>::empty());
                assert(names_of_vars(out@) =~= names_of_vars(old(out)@) + vars_of_inline(*selector)
                    + vars_of_variants(variants@.subrange(0, 0)));
            }
            while i < n
                invariant
                    i <= n,
                    n == variants@.len(),
                    names_of_vars(out@) == names_of_vars(old(out)@) + vars_of_inline(*selector)
                        + vars_of_variants(variants@.subrange(0, i as int)),
                decreases n - i,
            {
                proof {
                    assert(decreases_to!(*e => *variants));
                    assert(decreases_to!(*variants => variants@));
                    assert(decreases_to!(variants@ => variants@[i as int]));
                    assert(decreases_to!(variants@[i as int] => variants@[i as int].value));
                }
                collect_pattern_into(&variants[i].value, out);
                proof {
                    let pre1 = variants@.subrange(0, i as int + 1);
                    assert(pre1.drop_last() =~= variants@.subrange(0, i as int));
                    assert(pre1.last() == variants@[i as int]);
                    assert(names_of_vars(out@) =~= names_of_vars(old(out)@) + vars_of_inline(
                        *selector,
                    ) + vars_of_variants(pre1));
                }
                i = i + 1;
            }
            proof {
                assert(variants@.subrange(0, n as int) =~= variants@);
            }
        },
    }
}

/// Appends the variables one pattern mentions.
#[verifier::loop_isolation(false)]
fn collect_pattern_into(p: &ast::Pattern, out: &mut Vec<Var>)
    ensures
        names_of_vars(final(out)@) == names_of_vars(old(out)@) + vars_of_elems(p.elements@),
    decreases *p,
{
    let n = p.elements.len();
    let mut i: usize = 0;
    proof {
        assert(p.elements@.subrange(0, 0) =~= Seq::<ast::PatternElement>::empty());
        assert(names_of_vars(out@) =~= names_of_vars(old(out)@) + vars_of_elems(
            p.elements@.subrange(0, 0),
        ));
    }
    while i < n
        invariant
            i <= n,
            n == p.elements@.len(),
            names_of_vars(out@) == names_of_vars(old(out)@) + vars_of_elems(
                p.elements@.subrange(0, i as int),
            ),
        decreases n - i,
    {
        proof {
            assert(decreases_to!(*p => p.elements@[i as int]));
        }
        match &p.elements[i] {
            ast::PatternElement::TextElement { .. } => {
                proof {
                    assert(vars_of_elem(p.elements@[i as int]) =~= Seq::<Seq<char>>::empty());
                }
            },
            ast::PatternElement::Placeable { expression } => {
                collect_expr(expression, out);
                proof {
                    assert(vars_of_elem(p.elements@[i as int]) == vars_of_expr(*expression));
                }
            },
        }
        proof {
            let pre1 = p.elements@.subrange(0, i as int + 1);
            assert(pre1.drop_last() =~= p.elements@.subrange(0, i as int));
            assert(pre1.last() == p.elements@[i as int]);
            assert(names_of_vars(out@) =~= names_of_vars(old(out)@) + vars_of_elems(pre1));
        }
        i = i + 1;
    }
    proof {
        assert(p.elements@.subrange(0, n as int) =~= p.elements@);
    }
}

/// Appends the variables one inline expression mentions.
#[verifier::loop_isolation(false)]
fn collect_inline(ie: &ast::InlineExpression, out: &mut Vec<Var>)
    ensures
        names_of_vars(final(out)@) == names_of_vars(old(out)@) + vars_of_inline(*ie),
    decreases *ie,
{
    match ie {
        ast::InlineExpression::StringLiteral { .. } => {
            proof {
                assert(names_of_vars(out@) =~= names_of_vars(old(out)@) + Seq::<Seq<char>>::empty());
            }
        },
        ast::InlineExpression::NumberLiteral { .. } => {
            proof {
                assert(names_of_vars(out@) =~= names_of_vars(old(out)@) + Seq::<Seq<char>>::empty());
            }
        },
        ast::InlineExpression::MessageReference { .. } => {
            proof {
                assert(names_of_vars(out@) =~= names_of_vars(old(out)@) + Seq::<Seq<char>>::empty());
            }
        },
        ast::InlineExpression::VariableReference { id } => {
            out.push(Var { name: id.name.clone() });
            proof {
                assert(names_of_vars(out@) =~= names_of_vars(old(out)@) + seq![id.name@]);
            }
        },
        ast::InlineExpression::FunctionReference { arguments, .. } => {
            proof {
                assert(decreases_to!(*ie => *arguments));
            }
            collect_call(arguments, out);
        },
        ast::InlineExpression::TermReference { arguments, .. } => match arguments {
            Some(a) => {
                proof {
                    assert(decreases_to!(*ie => *a));
                }
                collect_call(a, out);
            },
            None => {
                proof {
                    assert(names_of_vars(out@) =~= names_of_vars(old(out)@) + Seq::<
                        Seq<char>,
                    >::empty());
                }
            },
        },
        ast::InlineExpression::Placeable { expression } => {
            proof {
                assert(decreases_to!(*ie => **expression));
            }
            collect_expr(expression, out);
        },
    }
}

/// Appends the variables one argument list mentions: positional values
/// first, then named values, each in call order.
#[verifier::loop_isolation(false)]
fn collect_call(args: &ast::CallArguments, out: &mut Vec<Var>)
    ensures
        names_of_vars(final(out)@) == names_of_vars(old(out)@) + vars_of_call(*args),
    decreases *args,
{
    let np = args.positional.len();
    let mut i: usize = 0;
    proof {
        assert(args.positional@.subrange(0, 0) =~= Seq::<ast::InlineExpression>::empty());
        assert(names_of_vars(out@) =~= names_of_vars(old(out)@) + vars_of_pos(
            args.positional@.subrange(0, 0),
        ));
    }
    while i < np
        invariant
            i <= np,
            np == args.positional@.len(),
            names_of_vars(out@) == names_of_vars(old(out)@) + vars_of_pos(
                args.positional@.subrange(0, i as int),
            ),
        decreases np - i,
    {
        proof {
            assert(decreases_to!(*args => args.positional@[i as int]));
        }
        collect_inline(&args.positional[i], out);
        proof {
            let pre1 = args.positional@.subrange(0, i as int + 1);
            assert(pre1.drop_last() =~= args.positional@.subrange(0, i as int));
            assert(pre1.last() == args.positional@[i as int]);
            assert(names_of_vars(out@) =~= names_of_vars(old(out)@) + vars_of_pos(pre1));
        }
        i = i + 1;
    }
    proof {
        assert(args.positional@.subrange(0, np as int) =~= args.positional@);
    }
    let nn = args.named.len();
    let mut j: usize = 0;
    proof {
        assert(args.named@.subrange(0, 0) =~= Seq::<ast::NamedArgument>::empty());
        assert(names_of_vars(out@) =~= names_of_vars(old(out)@) + vars_of_pos(args.positional@)
            + vars_of_named(args.named@.subrange(0, 0)));
    }
    while j < nn
        invariant
            j <= nn,
            nn == args.named@.len(),
            names_of_vars(out@) == names_of_vars(old(out)@) + vars_of_pos(args.positional@)
                + vars_of_named(args.named@.subrange(0, j as int)),
        decreases nn - j,
    {
        proof {
            assert(decreases_to!(*args => args.named@[j as int]));
            assert(decreases_to!(args.named@[j as int] => args.named@[j as int].value));
        }
        collect_inline(&args.named[j].value, out);
        proof {
            let pre1 = args.named@.subrange(0, j as int + 1);
            assert(pre1.drop_last() =~= args.named@.subrange(0, j as int));
            assert(pre1.last() == args.named@[j as int]);
            assert(names_of_vars(out@) =~= names_of_vars(old(out)@) + vars_of_pos(args.positional@)
                + vars_of_named(pre1));
        }
        j = j + 1;
    }
    proof {
        assert(args.named@.subrange(0, nn as int) =~= args.named@);
    }
}

} // verus!
