use vstd::prelude::*;

use crate::ast;
use crate::casing::{snake_of, to_snake_case};
use crate::error::Error;
use crate::ident::{id_sep, FluentId};
use crate::ir::{
    arg_wf, body_wf, callable_vars_wf, instr_wf, reg_wf, var_names_of, ArgValue, Callable,
    CompiledKey, CompiledVariant, FluentVariable, Instr, LanguageBuilder,
};
use crate::number::{
    spec_mantissa, spec_mnum_str, spec_number_value, spec_scale, value_fits, Number,
};
use crate::order::{insert_sorted, strictly_sorted, views_of};
use crate::plural::spec_plural_keyword;
use crate::strutil::str_eq;

verus! {

/// The compile-time context an expression is lowered under: directly in a
/// pattern, as a selector operand, as a term call argument, or as a
/// function call argument.
#[derive(Debug)]
pub enum ExpressionContext {
    Inline,
    Selector { plural_rules: bool },
    TermArguments { target: usize },
    FunctionCall,
}

/// What lowering one inline expression yields, by context: instructions
/// to run, the selector operand's variable, or a call argument.
#[derive(Debug)]
pub enum CompiledInline {
    Emit(Vec<Instr>),
    SelectorVar(String),
    Arg(ArgValue),
}

/// The output shape each context demands.
pub open spec fn inline_out_shape(out: CompiledInline, ctx: ExpressionContext) -> bool {
    match ctx {
        ExpressionContext::Inline => out is Emit,
        ExpressionContext::Selector { .. } => out is SelectorVar,
        ExpressionContext::TermArguments { .. } => out is Arg,
        ExpressionContext::FunctionCall => out is Arg,
    }
}

/// Well-formedness of a lowered inline output against a registry bound.
pub open spec fn inline_out_wf(out: CompiledInline, bound: int) -> bool {
    match out {
        CompiledInline::Emit(ins) => body_wf(ins@, bound),
        CompiledInline::SelectorVar(_) => true,
        CompiledInline::Arg(a) => arg_wf(a, bound),
    }
}

/// The full path a reference names: the id, or the id and the attribute
/// joined with a dot.
pub open spec fn ref_id_of(id: Seq<char>, attribute: Option<Seq<char>>) -> Seq<char> {
    match attribute {
        Some(a) => id + id_sep() + a,
        None => id,
    }
}

/// How many variants of a select expression are marked default.
pub open spec fn default_count(vs: Seq<ast::Variant>) -> nat
    decreases vs,
{
    if vs.len() == 0 {
        0
    } else {
        default_count(vs.drop_last()) + if vs.last().default {
            1nat
        } else {
            0nat
        }
    }
}

/// Whether a variant key is one of the six plural category keywords.
pub open spec fn key_is_plural(k: ast::VariantKey) -> bool {
    match k {
        ast::VariantKey::Identifier { name } => spec_plural_keyword(name@) is Some,
        ast::VariantKey::NumberLiteral { .. } => false,
    }
}

/// Whether any variant key of a selector is a plural category keyword.
pub open spec fn has_plural_variant(vs: Seq<ast::Variant>) -> bool {
    exists|k: int| 0 <= k < vs.len() && key_is_plural(#[trigger] vs[k].key)
}

/// First-occurrence deduplication of a name sequence.
pub open spec fn dedupe_first(s: Seq<Seq<char>>) -> Seq<Seq<char>>
    decreases s,
{
    if s.len() == 0 {
        Seq::empty()
    } else {
        let d = dedupe_first(s.drop_last());
        if s.drop_last().contains(s.last()) {
            d
        } else {
            d.push(s.last())
        }
    }
}

/// The deduplicated names hold exactly the names that occurred.
pub proof fn lemma_dedupe_set(s: Seq<Seq<char>>)
    ensures
        dedupe_first(s).to_set() == s.to_set(),
        forall|i: int, j: int|
            0 <= i < j < dedupe_first(s).len() ==> #[trigger] dedupe_first(s)[i]
                != #[trigger] dedupe_first(s)[j],
    decreases s.len(),
{
    if s.len() > 0 {
        lemma_dedupe_set(s.drop_last());
        let d0 = dedupe_first(s.drop_last());
        let d = dedupe_first(s);
        assert forall|x: Seq<char>| s.to_set().contains(x) implies d.to_set().contains(x) by {
            let i = choose|i: int| 0 <= i < s.len() && s[i] == x;
            if i < s.len() - 1 {
                assert(s.drop_last()[i] == x);
                assert(s.drop_last().to_set().contains(x));
                let j = choose|j: int| 0 <= j < d0.len() && d0[j] == x;
                if !s.drop_last().contains(s.last()) {
                    assert(d[j] == x);
                } else {
                    assert(d[j] == x);
                }
            } else {
                if s.drop_last().contains(s.last()) {
                    assert(s.drop_last().to_set().contains(x));
                } else {
                    assert(d.last() == x);
                }
            }
        }
        assert forall|x: Seq<char>| d.to_set().contains(x) implies s.to_set().contains(x) by {
            let i = choose|i: int| 0 <= i < d.len() && d[i] == x;
            if i < d0.len() {
                assert(d0[i] == x);
                assert(d0.to_set().contains(x));
                let j = choose|j: int| 0 <= j < s.drop_last().len() && s.drop_last()[j] == x;
                assert(s[j] == x);
            } else {
                assert(x == s.last());
            }
        }
        assert(d.to_set() =~= s.to_set());
        if !s.drop_last().contains(s.last()) {
            assert forall|i: int, j: int| 0 <= i < j < d.len() implies #[trigger] d[i]
                != #[trigger] d[j] by {
                if j < d0.len() {
                    assert(d0[i] == d[i] && d0[j] == d[j]);
                } else {
                    assert(d[j] == s.last());
                    assert(d0[i] == d[i]);
                    assert(d0.to_set().contains(d[i]));
                    assert(s.drop_last().to_set().contains(d[i]));
                }
            }
        }
    }
}

/// Turns the variable occurrence list of a compiled body into the
/// callable's variable list (first occurrence order, unique) and the
/// sorted name list the public key uses.
fn build_vars(occs: &Vec<String>) -> (r: (Vec<FluentVariable>, Vec<String>))
    ensures
        var_names_of(r.0@) == dedupe_first(views_of(occs@)),
        forall|i: int, j: int|
            0 <= i < j < r.0@.len() ==> #[trigger] r.0@[i].var_name@ != #[trigger] r.0@[j].var_name@,
        strictly_sorted(views_of(r.1@)),
        views_of(r.1@).to_set() == var_names_of(r.0@).to_set(),
        forall|i: int|
            0 <= i < r.0@.len() ==> #[trigger] r.0@[i].var_ident@ == snake_of(r.0@[i].var_name@),
{
    let mut vars: Vec<FluentVariable> = Vec::new();
    let mut sorted: Vec<String> = Vec::new();
    let n = occs.len();
    let mut i: usize = 0;
    proof {
        lemma_dedupe_set(views_of(occs@).take(0));
        assert(views_of(occs@).take(0) =~= Seq::<Seq<char>>::empty());
        assert(var_names_of(vars@) =~= dedupe_first(views_of(occs@).take(0)));
        assert(views_of(sorted@).to_set() =~= var_names_of(vars@).to_set());
    }
    while i < n
        invariant
            i <= n,
            n == occs@.len(),
            var_names_of(vars@) == dedupe_first(views_of(occs@).take(i as int)),
            forall|x: int, y: int|
                0 <= x < y < vars@.len() ==> #[trigger] vars@[x].var_name@
                    != #[trigger] vars@[y].var_name@,
            strictly_sorted(views_of(sorted@)),
            views_of(sorted@).to_set() == var_names_of(vars@).to_set(),
            forall|x: int|
                0 <= x < vars@.len() ==> #[trigger] vars@[x].var_ident@ == snake_of(
                    vars@[x].var_name@,
                ),
        decreases n - i,
    {
        let name = &occs[i];
        let ghost pre = views_of(occs@).take(i as int);
        let ghost pre1 = views_of(occs@).take(i as int + 1);
        proof {
            assert(pre1.drop_last() =~= pre);
            assert(pre1.last() == occs@[i as int]@);
            lemma_dedupe_set(pre);
        }
        // look for an earlier occurrence of the same name
        let mut seen = false;
        let m = vars.len();
        let mut j: usize = 0;
        while j < m
            invariant
                j <= m,
                m == vars@.len(),
                seen == exists|k: int| 0 <= k < j && #[trigger] vars@[k].var_name@ == name@,
            decreases m - j,
        {
            if str_eq(vars[j].var_name.as_str(), name.as_str()) {
                seen = true;
                proof {
                    assert(vars@[j as int].var_name@ == name@);
                }
            }
            j = j + 1;
        }
        proof {
            // seen mirrors membership of the name among the prefix names
            if seen {
                let k = choose|k: int| 0 <= k < vars@.len() && #[trigger] vars@[k].var_name@
                    == name@;
                assert(var_names_of(vars@)[k] == name@);
                assert(var_names_of(vars@).contains(name@));
                assert(var_names_of(vars@).to_set().contains(name@));
                assert(pre.to_set().contains(name@));
                assert(pre.contains(name@));
            } else {
                if pre.contains(name@) {
                    assert(pre.to_set().contains(name@));
                    assert(var_names_of(vars@).to_set().contains(name@));
                    let k = choose|k: int|
                        0 <= k < var_names_of(vars@).len() && var_names_of(vars@)[k] == name@;
                    assert(vars@[k].var_name@ == name@);
                }
            }
        }
        if !seen {
            let ident = to_snake_case(name.as_str());
            vars.push(FluentVariable { var_name: name.clone(), var_ident: ident });
            insert_sorted(&mut sorted, name.as_str());
            proof {
                let ghost old_names = dedupe_first(pre);
                assert(var_names_of(vars@) =~= old_names.push(name@));
                assert(var_names_of(vars@) =~= dedupe_first(pre1));
                old_names.lemma_push_to_set_commute(name@);
                assert(views_of(sorted@).to_set() =~= var_names_of(vars@).to_set());
            }
        } else {
            proof {
                assert(var_names_of(vars@) =~= dedupe_first(pre1));
            }
        }
        i = i + 1;
    }
    proof {
        assert(views_of(occs@).take(n as int) =~= views_of(occs@));
    }
    (vars, sorted)
}

impl LanguageBuilder {
    /// The binding name of an entry: the language prefix, the snaked id,
    /// and, for an attribute, the snaked attribute name.
    fn make_fn_ident(&self, id: &str, attribute: Option<&str>) -> (r: String)
        ensures
            match attribute {
                None => r@ == self.prefix@ + seq!['_'] + snake_of(id@),
                Some(a) => r@ == self.prefix@ + seq!['_'] + snake_of(id@) + seq!['_'] + snake_of(
                    a@,
                ),
            },
    {
        let mut out = self.prefix.clone();
        out.append("_");
        proof {
            reveal_strlit("_");
            assert("_"@ =~= seq!['_']);
        }
        let snaked = to_snake_case(id);
        out.append(snaked.as_str());
        match attribute {
            None => out,
            Some(a) => {
                out.append("_");
                let snaked_a = to_snake_case(a);
                out.append(snaked_a.as_str());
                proof {
                    assert(out@ =~= self.prefix@ + seq!['_'] + snake_of(id@) + seq!['_']
                        + snake_of(a@));
                }
                out
            },
        }
    }

    /// Moves a finished callable into the registry; a second entry under
    /// an already-taken id is refused and registers nothing.
    #[verifier::rlimit(60)]
    fn finalize_entry(&mut self, c: Callable) -> (r: Result<(), Error>)
        requires
            old(self).wf(),
            body_wf(c.body@, old(self).entries@.len() as int),
            callable_vars_wf(c),
        ensures
            final(self).language_id == old(self).language_id,
            final(self).prefix == old(self).prefix,
            final(self).wf(),
            ({
                if spec_find_dup(old(self).entries@, c.id@) {
                    r matches Err(e) && (e matches Error::DuplicateEntryId(d) && d@ == c.id@)
                        && final(self).entries@ == old(self).entries@
                } else {
                    r is Ok && final(self).entries@ == old(self).entries@.push(c)
                }
            }),
    {
        if self.find_entry(&c.id).is_some() {
            proof {
                assert(spec_find_dup(self.entries@, c.id@));
            }
            Err(Error::DuplicateEntryId(c.id.as_str().to_owned()))
        } else {
            proof {
                assert(!spec_find_dup(self.entries@, c.id@));
            }
            let ghost olde = self.entries@;
            self.entries.push(c);
            proof {
                let news = self.entries@;
                assert forall|i: int, j: int| 0 <= i < j < news.len() implies #[trigger] news[i].id@
                    != #[trigger] news[j].id@ by {
                    if j < olde.len() {
                        assert(news[i] == olde[i] && news[j] == olde[j]);
                    } else {
                        assert(news[i] == olde[i]);
                        assert(olde[i].id@ != news[j].id@) by {
                            if olde[i].id@ == news[j].id@ {
                                assert(0 <= i < olde.len() && olde[i].id@ == news[j].id@);
                                assert(spec_find_dup(olde, news[j].id@));
                            }
                        }
                    }
                }
                assert forall|i: int| 0 <= i < news.len() implies body_wf(
                    #[trigger] news[i].body@,
                    i,
                ) && callable_vars_wf(news[i]) by {
                    if i < olde.len() {
                        assert(news[i] == olde[i]);
                    }
                }
            }
            Ok(())
        }
    }
}

/// Whether some registered entry already carries this id.
pub open spec fn spec_find_dup(entries: Seq<Callable>, id: Seq<char>) -> bool {
    exists|i: int| 0 <= i < entries.len() && #[trigger] entries[i].id@ == id
}

/// Whether a named-argument list carries this name.
pub open spec fn named_has(named: Seq<ast::NamedArgument>, n: Seq<char>) -> bool {
    exists|j: int| 0 <= j < named.len() && #[trigger] named[j].name.name@ == n
}

/// Whether a variable list declares this name.
pub open spec fn vars_have(vars: Seq<FluentVariable>, n: Seq<char>) -> bool {
    exists|j: int| 0 <= j < vars.len() && #[trigger] vars[j].var_name@ == n
}

/// The callee's declared variable names that the call provides, in the
/// callee's declaration order: the order term call arguments take.
pub open spec fn term_pair_names(vars: Seq<FluentVariable>, named: Seq<ast::NamedArgument>) -> Seq<
    Seq<char>,
>
    decreases vars,
{
    if vars.len() == 0 {
        Seq::empty()
    } else {
        let d = term_pair_names(vars.drop_last(), named);
        if named_has(named, vars.last().var_name@) {
            d.push(vars.last().var_name@)
        } else {
            d
        }
    }
}

/// Whether some named argument uses a name the callee does not declare.
pub open spec fn some_undeclared(vars: Seq<FluentVariable>, named: Seq<ast::NamedArgument>) -> bool {
    exists|j: int| 0 <= j < named.len() && !vars_have(vars, #[trigger] named[j].name.name@)
}

/// The names of a lowered named-argument pair list.
pub open spec fn pair_names(pairs: Seq<(String, ArgValue)>) -> Seq<Seq<char>> {
    pairs.map_values(|p: (String, ArgValue)| p.0@)
}

/// One variable occurrence as an occurrence list.
pub open spec fn occs_single(s: Seq<String>, n: Seq<char>) -> bool {
    s.len() == 1 && s[0]@ == n
}

/// What lowering one inline expression promises, by node and context.
pub open spec fn compile_inline_post(
    entries: Seq<Callable>,
    entry_id: Seq<char>,
    ie: ast::InlineExpression,
    ctx: ExpressionContext,
    r: Result<(CompiledInline, Vec<String>), Error>,
) -> bool {
    &&& (match r {
        Ok(o) => inline_out_shape(o.0, ctx) && inline_out_wf(o.0, entries.len() as int),
        Err(_) => true,
    })
    &&& match ie {
        ast::InlineExpression::VariableReference { id } => match ctx {
            ExpressionContext::TermArguments { .. } => match r {
                Err(Error::UnsupportedFeature { feature, id: eid }) => eid@ == entry_id
                    && feature@ == "Usage of variable reference as a term argument"@,
                _ => false,
            },
            ExpressionContext::Inline => match r {
                Ok((CompiledInline::Emit(ins), occs)) => ins@.len() == 1 && (match ins@[0] {
                    Instr::VarText(n) => n@ == id.name@,
                    _ => false,
                }) && occs_single(occs@, id.name@),
                _ => false,
            },
            ExpressionContext::Selector { .. } => match r {
                Ok((CompiledInline::SelectorVar(n), occs)) => n@ == id.name@ && occs_single(
                    occs@,
                    id.name@,
                ),
                _ => false,
            },
            ExpressionContext::FunctionCall => match r {
                Ok((CompiledInline::Arg(ArgValue::VarArg(n)), occs)) => n@ == id.name@
                    && occs_single(occs@, id.name@),
                _ => false,
            },
        },
        ast::InlineExpression::StringLiteral { value } => match ctx {
            ExpressionContext::Selector { .. } => match r {
                Err(Error::UnsupportedFeature { feature, id: eid }) => eid@ == entry_id
                    && feature@ == "Usage of string literal as a selector"@,
                _ => false,
            },
            ExpressionContext::Inline => match r {
                Ok((CompiledInline::Emit(ins), occs)) => ins@.len() == 1 && (match ins@[0] {
                    Instr::Text(t) => t@ == value@,
                    _ => false,
                }) && occs@.len() == 0,
                _ => false,
            },
            _ => match r {
                Ok((CompiledInline::Arg(ArgValue::LitText(t)), occs)) => t@ == value@ && occs@.len()
                    == 0,
                _ => false,
            },
        },
        ast::InlineExpression::NumberLiteral { value } => match ctx {
            ExpressionContext::Selector { .. } => match r {
                Err(Error::UnsupportedFeature { feature, id: eid }) => eid@ == entry_id
                    && feature@ == "Usage of number literal as a selector"@,
                _ => false,
            },
            _ => match spec_number_value(value@) {
                Some((m, e)) => {
                    if value_fits(m, e) {
                        match ctx {
                            ExpressionContext::Inline => match r {
                                Ok((CompiledInline::Emit(ins), occs)) => ins@.len() == 1 && (
                                match ins@[0] {
                                    Instr::Text(t) => t@ == spec_mnum_str(m, e),
                                    _ => false,
                                }) && occs@.len() == 0,
                                _ => false,
                            },
                            _ => match r {
                                Ok((CompiledInline::Arg(ArgValue::LitNumber(n)), occs)) =>
                                    spec_mantissa(n) == m && spec_scale(n) == e && occs@.len() == 0,
                                _ => false,
                            },
                        }
                    } else {
                        match r {
                            Err(Error::InvalidLiteral(s)) => s@ == value@,
                            _ => false,
                        }
                    }
                },
                None => match r {
                    Err(Error::InvalidLiteral(s)) => s@ == value@,
                    _ => false,
                },
            },
        },
        ast::InlineExpression::MessageReference { id, attribute } => {
            let rid = ref_id_of(
                id.name@,
                match attribute {
                    Some(a) => Some(a.name@),
                    None => None,
                },
            );
            if spec_find_dup(entries, rid) {
                match ctx {
                    ExpressionContext::Selector { .. } => match r {
                        Err(Error::UnsupportedFeature { feature, id: eid }) => eid@ == entry_id
                            && feature@ == "Usage of message reference as selector"@,
                        _ => false,
                    },
                    ExpressionContext::Inline => match r {
                        Ok((CompiledInline::Emit(ins), occs)) => ins@.len() == 1 && (match ins@[0] {
                            Instr::CallMessage(i) => i < entries.len() && entries[i as int].id@
                                == rid,
                            _ => false,
                        }) && occs@.len() == 0,
                        _ => false,
                    },
                    _ => match r {
                        Ok((CompiledInline::Arg(ArgValue::MsgValue(i)), occs)) => i < entries.len()
                            && entries[i as int].id@ == rid && occs@.len() == 0,
                        _ => false,
                    },
                }
            } else {
                match r {
                    Err(Error::UndeclaredMessageReference { entry_id: eid, reference_id }) => eid@
                        == entry_id && reference_id@ == rid,
                    _ => false,
                }
            }
        },
        ast::InlineExpression::TermReference { id, attribute, arguments } => {
            let rid = ref_id_of(
                id.name@,
                match attribute {
                    Some(a) => Some(a.name@),
                    None => None,
                },
            );
            if spec_find_dup(entries, rid) {
                match ctx {
                    ExpressionContext::Selector { .. } => match r {
                        Err(Error::UnsupportedFeature { feature, id: eid }) => eid@ == entry_id
                            && feature@ == "Usage of term reference as selector"@,
                        _ => false,
                    },
                    ExpressionContext::Inline => match r {
                        Ok((CompiledInline::Emit(ins), _)) => ins@.len() == 1 && (match ins@[0] {
                            Instr::CallTerm { target, .. } => target < entries.len()
                                && entries[target as int].id@ == rid,
                            _ => false,
                        }),
                        Ok(_) => false,
                        Err(_) => arguments is Some,
                    },
                    _ => match r {
                        Ok((CompiledInline::Arg(ArgValue::TermValue { target, .. }), _)) => target
                            < entries.len() && entries[target as int].id@ == rid,
                        Ok(_) => false,
                        Err(_) => arguments is Some,
                    },
                }
            } else {
                match r {
                    Err(Error::UndeclaredTermReference { entry_id: eid, reference_id }) => eid@
                        == entry_id && reference_id@ == rid,
                    _ => false,
                }
            }
        },
        ast::InlineExpression::FunctionReference { id, arguments } => match ctx {
            ExpressionContext::Selector { .. } => match r {
                Err(Error::UnsupportedFeature { feature, id: eid }) => eid@ == entry_id
                    && feature@ == "Usage of function reference as selector"@,
                _ => false,
            },
            ExpressionContext::Inline => match r {
                Ok((CompiledInline::Emit(ins), _)) => ins@.len() == 1 && (match ins@[0] {
                    Instr::FunctionCall { name: n, .. } => n@ == id.name@,
                    _ => false,
                }),
                Ok(_) => false,
                Err(_) => true,
            },
            _ => match r {
                Ok((CompiledInline::Arg(ArgValue::FuncValue { name: n, .. }), _)) => n@
                    == id.name@,
                Ok(_) => false,
                Err(_) => true,
            },
        },
        ast::InlineExpression::Placeable { .. } => true,
    }
}

/// Builds the full reference path of an id with an optional attribute.
fn make_ref_id(id: &ast::Identifier, attribute: &Option<ast::Identifier>) -> (r: FluentId)
    ensures
        r@ == ref_id_of(
            id.name@,
            match *attribute {
                Some(a) => Some(a.name@),
                None => None,
            },
        ),
{
    let base = FluentId::new(id.name.as_str());
    match attribute {
        Some(a) => base.join(a.name.as_str()),
        None => base,
    }
}

/// A pattern of literal text alone.
pub open spec fn all_text(es: Seq<ast::PatternElement>) -> bool {
    forall|i: int| 0 <= i < es.len() ==> (#[trigger] es[i]) is TextElement
}

/// Lowers one pattern into instructions, collecting the variable
/// occurrences its expressions make, in traversal order. A pattern of
/// literal text alone always lowers.
#[verifier::loop_isolation(false)]
pub fn compile_pattern(b: &LanguageBuilder, entry_id: &FluentId, p: &ast::Pattern) -> (r: Result<
    (Vec<Instr>, Vec<String>),
    Error,
>)
    ensures
        r matches Ok(o) ==> body_wf(o.0@, b.entries@.len() as int),
        r matches Ok(o) ==> crate::lowering::pattern_lowers(b.entries@, p.elements@, o.0@),
        all_text(p.elements@) ==> r is Ok,
    decreases *p,
{
    let mut out: Vec<Instr> = Vec::new();
    let mut occs: Vec<String> = Vec::new();
    let n = p.elements.len();
    let mut i: usize = 0;
    while i < n
        invariant
            i <= n,
            n == p.elements@.len(),
            body_wf(out@, b.entries@.len() as int),
            out@.len() == i,
            forall|k: int|
                0 <= k < i ==> crate::lowering::elem_lowers(
                    b.entries@,
                    #[trigger] p.elements@[k],
                    out@[k],
                ),
        decreases n - i,
    {
        proof {
            assert(decreases_to!(*p => p.elements@[i as int]));
        }
        let ghost oldout = out@;
        match &p.elements[i] {
            ast::PatternElement::TextElement { value } => {
                out.push(Instr::Text(value.clone()));
            },
            ast::PatternElement::Placeable { expression } => {
                let (mut ins, mut sub) = compile_expression(b, entry_id, expression)?;
                out.append(&mut ins);
                occs.append(&mut sub);
            },
        }
        proof {
            assert forall|k: int| 0 <= k < out@.len() implies instr_wf(
                #[trigger] out@[k],
                b.entries@.len() as int,
            ) by {}
            assert forall|k: int| 0 <= k < i + 1 implies crate::lowering::elem_lowers(
                b.entries@,
                #[trigger] p.elements@[k],
                out@[k],
            ) by {
                if k < i {
                    assert(out@[k] == oldout[k]);
                }
            }
        }
        i = i + 1;
    }
    Ok((out, occs))
}

/// Lowers one pattern-level expression: a select expression becomes a
/// runtime match, an inline expression emits directly.
#[verifier::loop_isolation(false)]
pub fn compile_expression(b: &LanguageBuilder, entry_id: &FluentId, e: &ast::Expression) -> (r:
    Result<(Vec<Instr>, Vec<String>), Error>)
    ensures
        r matches Ok(o) ==> body_wf(o.0@, b.entries@.len() as int),
        r matches Ok(o) ==> o.0@.len() == 1 && crate::lowering::expr_lowers(
            b.entries@,
            *e,
            o.0@[0],
        ),
        *e matches ast::Expression::Inline(ie) ==> crate::lowering::inline_forced(
            b.entries@,
            entry_id@,
            ie,
            r,
        ),
        (e matches ast::Expression::Select { variants, .. } && default_count(variants@) != 1)
            ==> (r matches Err(err) && (match err {
            Error::InvalidSelectorDefaultVariant { message_id } => message_id@ == entry_id@,
            _ => false,
        })),
        e matches ast::Expression::Select { variants, .. } ==> (match r {
            Ok(o) => default_count(variants@) == 1 && o.0@.len() == 1 && (match o.0@[0] {
                Instr::Select { plural_rules, variants: cv, .. } => plural_rules
                    == has_plural_variant(variants@) && cv@.len() == variants@.len(),
                _ => false,
            }),
            Err(_) => true,
        }),
    decreases *e,
{
    match e {
        ast::Expression::Inline(ie) => {
            proof {
                assert(decreases_to!(*e => *ie));
            }
            let (out, occs) = compile_inline(b, entry_id, ie, &ExpressionContext::Inline)?;
            match out {
                CompiledInline::Emit(ins) => Ok((ins, occs)),
                _ => Err(Error::UnexpectedContextState),
            }
        },
        ast::Expression::Select { selector, variants } => {
            // exactly one variant must be the default
            let n = variants.len();
            let mut dc: usize = 0;
            let mut i: usize = 0;
            while i < n
                invariant
                    i <= n,
                    n == variants@.len(),
                    dc == default_count(variants@.take(i as int)),
                    dc <= i,
                decreases n - i,
            {
                proof {
                    assert(variants@.take(i as int + 1).drop_last() =~= variants@.take(i as int));
                    assert(variants@.take(i as int + 1).last() == variants@[i as int]);
                }
                if variants[i].default {
                    dc = dc + 1;
                }
                i = i + 1;
            }
            proof {
                assert(variants@.take(n as int) =~= variants@);
            }
            if dc != 1 {
                return Err(
                    Error::InvalidSelectorDefaultVariant {
                        message_id: entry_id.as_str().to_owned(),
                    },
                );
            }
            // the plural machinery is engaged only when some variant key
            // is a plural category keyword
            let mut pr = false;
            let mut i: usize = 0;
            while i < n
                invariant
                    i <= n,
                    n == variants@.len(),
                    pr == has_plural_variant(variants@.take(i as int)),
                decreases n - i,
            {
                let ghost pre = variants@.take(i as int);
                let ghost pre1 = variants@.take(i as int + 1);
                let mut this_plural = false;
                match &variants[i].key {
                    ast::VariantKey::Identifier { name } => {
                        if crate::plural::plural_keyword(name.as_str()).is_some() {
                            this_plural = true;
                        }
                    },
                    ast::VariantKey::NumberLiteral { .. } => {},
                }
                proof {
                    assert(this_plural == key_is_plural(variants@[i as int].key));
                    if pr || this_plural {
                        if this_plural {
                            assert(key_is_plural(pre1[i as int].key));
                        } else {
                            let k = choose|k: int|
                                0 <= k < pre.len() && key_is_plural(#[trigger] pre[k].key);
                            assert(key_is_plural(pre1[k].key));
                        }
                        assert(has_plural_variant(pre1));
                    } else {
                        if has_plural_variant(pre1) {
                            let k = choose|k: int|
                                0 <= k < pre1.len() && key_is_plural(#[trigger] pre1[k].key);
                            if k < i {
                                assert(key_is_plural(pre[k].key));
                                assert(has_plural_variant(pre));
                            }
                        }
                    }
                }
                if this_plural {
                    pr = true;
                }
                i = i + 1;
            }
            proof {
                assert(variants@.take(n as int) =~= variants@);
            }
            // the selector operand: only a variable reference is valid
            proof {
                assert(decreases_to!(*e => *selector));
            }
            let (sel_out, mut occs) = compile_inline(
                b,
                entry_id,
                selector,
                &ExpressionContext::Selector { plural_rules: pr },
            )?;
            let sel_name = match sel_out {
                CompiledInline::SelectorVar(name) => name,
                _ => {
                    return Err(Error::UnexpectedContextState);
                },
            };
            // the non-default variants keep their order; the default one
            // moves to the end as the catch-all
            let mut cv: Vec<CompiledVariant> = Vec::new();
            let mut i: usize = 0;
            let ghost bound = b.entries@.len() as int;
            while i < n
                invariant
                    i <= n,
                    n == variants@.len(),
                    cv@.len() == i - default_count(variants@.take(i as int)),
                    default_count(variants@.take(i as int)) <= 1,
                    forall|k: int|
                        0 <= k < cv@.len() ==> body_wf(#[trigger] cv@[k].body@, bound) && !(
                        cv@[k].key is Fallback),
                    forall|j: int|
                        0 <= j < cv@.len() ==> {
                            let si = crate::lowering::nd_index(variants@, j);
                            &&& 0 <= si < variants@.len()
                            &&& !variants@[si].default
                            &&& crate::lowering::key_lowers(
                                variants@[si].key,
                                (#[trigger] cv@[j]).key,
                            )
                            &&& crate::lowering::pattern_lowers(
                                b.entries@,
                                variants@[si].value.elements@,
                                cv@[j].body@,
                            )
                        },
                    bound == b.entries@.len() as int,
                    default_count(variants@) == 1,
                decreases n - i,
            {
                proof {
                    assert(variants@.take(i as int + 1).drop_last() =~= variants@.take(i as int));
                    assert(variants@.take(i as int + 1).last() == variants@[i as int]);
                }
                let v = &variants[i];
                proof {
                    lemma_default_count_prefix(variants@, i as int + 1);
                }
                if !v.default {
                    let key = compile_variant_key(&v.key)?;
                    proof {
                        assert(decreases_to!(*e => *variants));
                        assert(decreases_to!(*variants => variants@));
                        assert(decreases_to!(variants@ => variants@[i as int]));
                        assert(decreases_to!(variants@[i as int] => variants@[i as int].value));
                    }
                    let (body, mut sub) = compile_pattern(b, entry_id, &v.value)?;
                    occs.append(&mut sub);
                    let ghost oldcv = cv@;
                    cv.push(CompiledVariant { key, body });
                    proof {
                        lemma_default_count_le(variants@.take(i as int + 1));
                        crate::lowering::lemma_nd_index_at(variants@, i as int);
                        assert forall|k: int| 0 <= k < cv@.len() implies body_wf(
                            #[trigger] cv@[k].body@,
                            bound,
                        ) && !(cv@[k].key is Fallback) by {
                            if k < cv@.len() - 1 {
                                assert(cv@[k] == oldcv[k]);
                            } else {
                                assert(cv@[k].body@ == body@);
                                assert(cv@[k].key == key);
                            }
                        }
                        assert forall|j: int| 0 <= j < cv@.len() implies {
                            let si = crate::lowering::nd_index(variants@, j);
                            &&& 0 <= si < variants@.len()
                            &&& !variants@[si].default
                            &&& crate::lowering::key_lowers(
                                variants@[si].key,
                                (#[trigger] cv@[j]).key,
                            )
                            &&& crate::lowering::pattern_lowers(
                                b.entries@,
                                variants@[si].value.elements@,
                                cv@[j].body@,
                            )
                        } by {
                            if j < cv@.len() - 1 {
                                assert(cv@[j] == oldcv[j]);
                            } else {
                                assert(crate::lowering::nd_index(variants@, j) == i as int);
                                assert(cv@[j].key == key);
                                assert(cv@[j].body@ == body@);
                            }
                        }
                    }
                } else {
                    proof {
                        lemma_default_count_le(variants@.take(i as int + 1));
                    }
                }
                i = i + 1;
            }
            proof {
                assert(variants@.take(n as int) =~= variants@);
            }
            // the default variant, compiled last as the catch-all
            let di = find_default(variants);
            proof {
                assert(decreases_to!(*e => *variants));
                assert(decreases_to!(*variants => variants@));
                assert(decreases_to!(variants@ => variants@[di as int]));
                assert(decreases_to!(variants@[di as int] => variants@[di as int].value));
            }
            let (dbody, mut dsub) = compile_pattern(b, entry_id, &variants[di].value)?;
            occs.append(&mut dsub);
            let ghost precv = cv@;
            cv.push(CompiledVariant { key: CompiledKey::Fallback, body: dbody });
            proof {
                assert(cv@.last().key is Fallback);
                assert(cv@.last().body@ == dbody@);
                assert forall|j: int| 0 <= j < cv@.len() - 1 implies {
                    let si = crate::lowering::nd_index(variants@, j);
                    &&& 0 <= si < variants@.len()
                    &&& !variants@[si].default
                    &&& crate::lowering::key_lowers(variants@[si].key, (#[trigger] cv@[j]).key)
                    &&& crate::lowering::pattern_lowers(
                        b.entries@,
                        variants@[si].value.elements@,
                        cv@[j].body@,
                    )
                } by {
                    assert(cv@[j] == precv[j]);
                }
                assert forall|k: int| 0 <= k < cv@.len() implies body_wf(
                    #[trigger] cv@[k].body@,
                    bound,
                ) by {
                    if k < cv@.len() - 1 {
                        assert(cv@[k] == precv[k]);
                    }
                }
            }
            let ghost gcv = cv@;
            let ghost gsel = sel_name@;
            let ins = Instr::Select { selector: sel_name, plural_rules: pr, variants: cv };
            let mut out: Vec<Instr> = Vec::new();
            out.push(ins);
            proof {
                assert(body_wf(out@, bound));
                assert(out@[0] matches Instr::Select { selector: s2, plural_rules: p2, variants: v2 }
                    && s2@ == gsel && p2 == pr && v2@ == gcv);
                assert(default_count(variants@) == 1);
                assert(crate::lowering::sel_var_of(*selector) == Some(gsel));
                assert(gcv.len() == variants@.len());
                assert(gcv.last().key is Fallback);
                assert(0 <= di < variants@.len() && variants@[di as int].default);
                assert(di == crate::lowering::first_default_index(variants@));
                assert(crate::lowering::pattern_lowers(
                    b.entries@,
                    variants@[di as int].value.elements@,
                    gcv.last().body@,
                ));
                assert(crate::lowering::expr_lowers(b.entries@, *e, out@[0]));
            }
            Ok((out, occs))
        },
    }
}

/// A prefix never holds more default variants than the whole.
proof fn lemma_default_count_prefix(vs: Seq<ast::Variant>, k: int)
    requires
        0 <= k <= vs.len(),
    ensures
        default_count(vs.take(k)) <= default_count(vs),
    decreases vs.len(),
{
    if k == vs.len() {
        assert(vs.take(k) =~= vs);
    } else {
        assert(vs.take(k) =~= vs.drop_last().take(k));
        lemma_default_count_prefix(vs.drop_last(), k);
    }
}

/// The count of default variants never exceeds the count of variants.
pub proof fn lemma_default_count_le(vs: Seq<ast::Variant>)
    ensures
        default_count(vs) <= vs.len(),
    decreases vs.len(),
{
    if vs.len() > 0 {
        lemma_default_count_le(vs.drop_last());
    }
}

/// The index of some default variant; the caller knows one exists.
#[verifier::loop_isolation(false)]
fn find_default(variants: &Vec<ast::Variant>) -> (r: usize)
    requires
        default_count(variants@) >= 1,
    ensures
        r < variants@.len(),
        variants@[r as int].default,
        r == crate::lowering::first_default_index(variants@),
{
    let n = variants.len();
    let mut i: usize = 0;
    while i < n
        invariant
            i <= n,
            n == variants@.len(),
            default_count(variants@.take(i as int)) == 0,
            forall|j: int| 0 <= j < i ==> !(#[trigger] variants@[j]).default,
            default_count(variants@) >= 1,
        decreases n - i,
    {
        proof {
            assert(variants@.take(i as int + 1).drop_last() =~= variants@.take(i as int));
            assert(variants@.take(i as int + 1).last() == variants@[i as int]);
        }
        if variants[i].default {
            proof {
                crate::lowering::lemma_first_default_at(variants@, i as int);
            }
            return i;
        }
        i = i + 1;
    }
    proof {
        assert(variants@.take(n as int) =~= variants@);
        assert(false);
    }
    0
}

/// Bounds on calls stay valid as the registry grows.
pub proof fn lemma_arg_wf_mono(a: ArgValue, n1: int, n2: int)
    requires
        n1 <= n2,
        arg_wf(a, n1),
    ensures
        arg_wf(a, n2),
    decreases a,
{
    match a {
        ArgValue::TermValue { args, .. } => {
            assert forall|k: int| 0 <= k < args@.len() implies arg_wf(
                #[trigger] args@[k].1,
                n2,
            ) by {
                lemma_arg_wf_mono(args@[k].1, n1, n2);
            }
        },
        ArgValue::FuncValue { positional, named, .. } => {
            assert forall|k: int| 0 <= k < positional@.len() implies arg_wf(
                #[trigger] positional@[k],
                n2,
            ) by {
                lemma_arg_wf_mono(positional@[k], n1, n2);
            }
            assert forall|k: int| 0 <= k < named@.len() implies arg_wf(
                #[trigger] named@[k].1,
                n2,
            ) by {
                lemma_arg_wf_mono(named@[k].1, n1, n2);
            }
        },
        _ => {},
    }
}

pub proof fn lemma_instr_wf_mono(ins: Instr, n1: int, n2: int)
    requires
        n1 <= n2,
        instr_wf(ins, n1),
    ensures
        instr_wf(ins, n2),
    decreases ins,
{
    match ins {
        Instr::CallTerm { args, .. } => {
            assert forall|k: int| 0 <= k < args@.len() implies arg_wf(
                #[trigger] args@[k].1,
                n2,
            ) by {
                lemma_arg_wf_mono(args@[k].1, n1, n2);
            }
        },
        Instr::FunctionCall { positional, named, .. } => {
            assert forall|k: int| 0 <= k < positional@.len() implies arg_wf(
                #[trigger] positional@[k],
                n2,
            ) by {
                lemma_arg_wf_mono(positional@[k], n1, n2);
            }
            assert forall|k: int| 0 <= k < named@.len() implies arg_wf(
                #[trigger] named@[k].1,
                n2,
            ) by {
                lemma_arg_wf_mono(named@[k].1, n1, n2);
            }
        },
        Instr::Select { variants, .. } => {
            assert forall|k: int| 0 <= k < variants@.len() implies body_wf(
                #[trigger] variants@[k].body@,
                n2,
            ) by {
                lemma_body_wf_mono(variants@[k].body@, n1, n2);
            }
        },
        _ => {},
    }
}

pub proof fn lemma_body_wf_mono(b: Seq<Instr>, n1: int, n2: int)
    requires
        n1 <= n2,
        body_wf(b, n1),
    ensures
        body_wf(b, n2),
    decreases b,
{
    assert forall|k: int| 0 <= k < b.len() implies instr_wf(#[trigger] b[k], n2) by {
        lemma_instr_wf_mono(b[k], n1, n2);
    }
}

/// The ids and privacy the attributes of one entry register, in order.
pub open spec fn attrs_plan(parent: Seq<char>, attrs: Seq<ast::Attribute>, private: bool) -> Seq<
    (Seq<char>, bool),
> {
    attrs.map_values(|a: ast::Attribute| (parent + id_sep() + a.id.name@, private))
}

/// The ids and privacy one entry registers, in registration order: the
/// attributes first, the entry itself last.
pub open spec fn entry_plan(e: ast::Entry) -> Seq<(Seq<char>, bool)> {
    match e {
        ast::Entry::Message(m) => attrs_plan(m.id.name@, m.attributes@, false).push(
            (m.id.name@, false),
        ),
        ast::Entry::Term(t) => attrs_plan(t.id.name@, t.attributes@, true).push((t.id.name@, true)),
        ast::Entry::Comment(_) => Seq::empty(),
    }
}

/// The ids and privacy a whole resource registers, in order.
pub open spec fn resource_plan(body: Seq<ast::Entry>) -> Seq<(Seq<char>, bool)>
    decreases body,
{
    if body.len() == 0 {
        Seq::empty()
    } else {
        resource_plan(body.drop_last()) + entry_plan(body.last())
    }
}

/// The id and privacy of each registered callable, in order.
pub open spec fn entry_meta(entries: Seq<Callable>) -> Seq<(Seq<char>, bool)> {
    entries.map_values(|c: Callable| (c.id@, c.private))
}

/// Every attribute pattern of a list is literal text alone.
pub open spec fn attrs_all_text(attrs: Seq<ast::Attribute>) -> bool {
    forall|k: int| 0 <= k < attrs.len() ==> all_text((#[trigger] attrs[k]).value.elements@)
}

/// An entry whose patterns are literal text alone, or a comment.
pub open spec fn entry_all_text(e: ast::Entry) -> bool {
    match e {
        ast::Entry::Message(m) => (match m.value {
            Some(p) => all_text(p.elements@),
            None => true,
        }) && attrs_all_text(m.attributes@),
        ast::Entry::Term(t) => all_text(t.value.elements@) && attrs_all_text(t.attributes@),
        ast::Entry::Comment(_) => true,
    }
}

/// A resource of comments and literal-text entries alone.
pub open spec fn resource_all_text(body: Seq<ast::Entry>) -> bool {
    forall|k: int| 0 <= k < body.len() ==> entry_all_text(#[trigger] body[k])
}

/// The planned ids are distinct among themselves and absent from the
/// registry they would join.
pub open spec fn plan_fresh(existing: Seq<(Seq<char>, bool)>, plan: Seq<(Seq<char>, bool)>) -> bool {
    &&& forall|i: int, j: int|
        0 <= i < j < plan.len() ==> (#[trigger] plan[i]).0 != (#[trigger] plan[j]).0
    &&& forall|i: int, j: int|
        0 <= i < plan.len() && 0 <= j < existing.len() ==> (#[trigger] plan[i]).0 != (
        #[trigger] existing[j]).0
}

/// A prefix of the entries plans a prefix of the whole plan.
pub proof fn lemma_resource_plan_prefix(body: Seq<ast::Entry>, i: int)
    requires
        0 <= i <= body.len(),
    ensures
        resource_plan(body.take(i)) == resource_plan(body).take(
            resource_plan(body.take(i)).len() as int,
        ),
        resource_plan(body.take(i)).len() <= resource_plan(body).len(),
    decreases body.len(),
{
    if i == body.len() {
        assert(body.take(i) =~= body);
        assert(resource_plan(body).take(resource_plan(body).len() as int) =~= resource_plan(body));
    } else {
        let dl = body.drop_last();
        assert(body.take(i) =~= dl.take(i));
        lemma_resource_plan_prefix(dl, i);
        let p = resource_plan(body.take(i));
        assert(resource_plan(body) == resource_plan(dl) + entry_plan(body.last()));
        assert(resource_plan(dl).take(p.len() as int) =~= resource_plan(body).take(p.len() as int));
    }
}


impl LanguageBuilder {
    /// Compiles one message or term with its attributes: the body first,
    /// then each attribute (registered as it finishes), then the entry.
    #[verifier::loop_isolation(false)]
    fn compile_entry_item(
        &mut self,
        id_name: &str,
        value: Option<&ast::Pattern>,
        attributes: &Vec<ast::Attribute>,
        private: bool,
    ) -> (r: Result<(), Error>)
        requires
            old(self).wf(),
        ensures
            final(self).wf(),
            final(self).language_id == old(self).language_id,
            final(self).prefix == old(self).prefix,
            r is Ok ==> entry_meta(final(self).entries@) == entry_meta(old(self).entries@)
                + attrs_plan(id_name@, attributes@, private).push((id_name@, private)),
            ({
                let plan = attrs_plan(id_name@, attributes@, private).push((id_name@, private));
                ((match value {
                    Some(p) => all_text(p.elements@),
                    None => true,
                }) && attrs_all_text(attributes@) && plan_fresh(
                    entry_meta(old(self).entries@),
                    plan,
                )) ==> r is Ok
            }),
            (((match value {
                Some(p) => all_text(p.elements@),
                None => true,
            }) && attrs_all_text(attributes@)) && r is Err) ==> (r matches Err(e2) && e2
                is DuplicateEntryId),
    {
        let ghost gplan = attrs_plan(id_name@, attributes@, private).push((id_name@, private));
        let ghost gtextok = (match value {
            Some(p) => all_text(p.elements@),
            None => true,
        }) && attrs_all_text(attributes@) && plan_fresh(entry_meta(old(self).entries@), gplan);
        let id = FluentId::new(id_name);
        let fn_ident = self.make_fn_ident(id_name, None);
        let ghost base_len = self.entries@.len() as int;
        let (body, occs) = match value {
            Some(p) => compile_pattern(&*self, &id, p)?,
            None => (Vec::new(), Vec::new()),
        };
        let n = attributes.len();
        let mut i: usize = 0;
        while i < n
            invariant
                i <= n,
                n == attributes@.len(),
                self.wf(),
                self.language_id == old(self).language_id,
                self.prefix == old(self).prefix,
                base_len <= self.entries@.len(),
                body_wf(body@, base_len),
                entry_meta(self.entries@) == entry_meta(old(self).entries@) + attrs_plan(
                    id_name@,
                    attributes@.take(i as int),
                    private,
                ),
            decreases n - i,
        {
            let attr = &attributes[i];
            let child_id = id.join(attr.id.name.as_str());
            let child_ident = self.make_fn_ident(id_name, Some(attr.id.name.as_str()));
            let (abody, aoccs) = compile_pattern(&*self, &child_id, &attr.value)?;
            let (avars, asorted) = build_vars(&aoccs);
            let ghost before = self.entries@;
            let child = Callable {
                id: child_id,
                fn_ident: child_ident,
                private,
                vars: avars,
                sorted_var_names: asorted,
                body: abody,
            };
            proof {
                assert(callable_vars_wf(child));
            }
            proof {
                if gtextok {
                    // the child's id is fresh: it cannot collide
                    let meta = entry_meta(self.entries@);
                    let base = entry_meta(old(self).entries@);
                    assert(gplan[i as int] == attrs_plan(id_name@, attributes@, private)[i as int]);
                    assert(gplan[i as int].0 == id_name@ + id_sep() + attributes@[i as int].id.name@);
                    assert(!spec_find_dup(self.entries@, id_name@ + id_sep()
                        + attributes@[i as int].id.name@)) by {
                        if spec_find_dup(self.entries@, id_name@ + id_sep()
                            + attributes@[i as int].id.name@) {
                            let k = choose|k: int|
                                0 <= k < self.entries@.len() && (#[trigger] self.entries@[k]).id@
                                    == id_name@ + id_sep() + attributes@[i as int].id.name@;
                            assert(meta[k].0 == self.entries@[k].id@);
                            if k < base.len() {
                                assert(base[k] == meta[k]);
                                assert(gplan[i as int].0 != base[k].0);
                            } else {
                                let kp = k - base.len();
                                assert(meta[k] == attrs_plan(
                                    id_name@,
                                    attributes@.take(i as int),
                                    private,
                                )[kp]);
                                assert(attrs_plan(id_name@, attributes@.take(i as int), private)[kp]
                                    == attrs_plan(id_name@, attributes@, private)[kp]) by {
                                    assert(attributes@.take(i as int)[kp] == attributes@[kp]);
                                }
                                assert(gplan[kp] == attrs_plan(id_name@, attributes@, private)[kp]);
                                assert(gplan[kp].0 != gplan[i as int].0);
                            }
                        }
                    }
                }
            }
            let res = self.finalize_entry(child);
            match res {
                Ok(()) => {},
                Err(e) => {
                    proof {
                        assert(!gtextok);
                    }
                    return Err(e);
                },
            }
            proof {
                assert(entry_meta(self.entries@) =~= entry_meta(before).push(
                    (id_name@ + id_sep() + attr.id.name@, private),
                ));
                assert(attrs_plan(id_name@, attributes@.take(i as int + 1), private) =~= attrs_plan(
                    id_name@,
                    attributes@.take(i as int),
                    private,
                ).push((id_name@ + id_sep() + attr.id.name@, private)));
                assert(entry_meta(self.entries@) =~= entry_meta(old(self).entries@) + attrs_plan(
                    id_name@,
                    attributes@.take(i as int + 1),
                    private,
                ));
            }
            i = i + 1;
        }
        proof {
            assert(attributes@.take(n as int) =~= attributes@);
        }
        let (vars, sorted) = build_vars(&occs);
        proof {
            lemma_body_wf_mono(body@, base_len, self.entries@.len() as int);
        }
        let ghost before = self.entries@;
        let parent = Callable {
            id,
            fn_ident,
            private,
            vars,
            sorted_var_names: sorted,
            body,
        };
        proof {
            assert(callable_vars_wf(parent));
        }
        proof {
            if gtextok {
                // the entry's own id is fresh as well
                let meta = entry_meta(self.entries@);
                let base = entry_meta(old(self).entries@);
                let li = gplan.len() - 1;
                assert(gplan[li] == (id_name@, private));
                assert(!spec_find_dup(self.entries@, id_name@)) by {
                    if spec_find_dup(self.entries@, id_name@) {
                        let k = choose|k: int|
                            0 <= k < self.entries@.len() && (#[trigger] self.entries@[k]).id@
                                == id_name@;
                        assert(meta[k].0 == self.entries@[k].id@);
                        if k < base.len() {
                            assert(base[k] == meta[k]);
                            assert(gplan[li].0 != base[k].0);
                        } else {
                            let kp = k - base.len();
                            assert(meta[k] == attrs_plan(id_name@, attributes@, private)[kp]);
                            assert(gplan[kp] == attrs_plan(id_name@, attributes@, private)[kp]);
                            assert(gplan[kp].0 != gplan[li].0);
                        }
                    }
                }
            }
        }
        let res = self.finalize_entry(parent);
        match res {
            Ok(()) => {},
            Err(e) => {
                proof {
                    assert(!gtextok);
                }
                return Err(e);
            },
        }
        proof {
            assert(entry_meta(self.entries@) =~= entry_meta(before).push((id_name@, private)));
            assert(entry_meta(self.entries@) =~= entry_meta(old(self).entries@) + attrs_plan(
                id_name@,
                attributes@,
                private,
            ).push((id_name@, private)));
        }
        Ok(())
    }

    /// Compiles every message and term of one parsed resource into this
    /// language's registry; comments are skipped. Any failure is terminal
    /// for the build that invoked it.
    #[verifier::loop_isolation(false)]
    pub fn add_resource(&mut self, res: &ast::Resource) -> (r: Result<(), Error>)
        requires
            old(self).wf(),
        ensures
            final(self).wf(),
            final(self).language_id == old(self).language_id,
            final(self).prefix == old(self).prefix,
            r is Ok ==> entry_meta(final(self).entries@) == entry_meta(old(self).entries@)
                + resource_plan(res.body@),
            (resource_all_text(res.body@) && plan_fresh(
                entry_meta(old(self).entries@),
                resource_plan(res.body@),
            )) ==> r is Ok,
            (resource_all_text(res.body@) && r is Err) ==> (r matches Err(e2) && e2
                is DuplicateEntryId),
    {
        let ghost gfresh = resource_all_text(res.body@) && plan_fresh(
            entry_meta(old(self).entries@),
            resource_plan(res.body@),
        );
        let n = res.body.len();
        let mut i: usize = 0;
        while i < n
            invariant
                i <= n,
                n == res.body@.len(),
                self.wf(),
                self.language_id == old(self).language_id,
                self.prefix == old(self).prefix,
                entry_meta(self.entries@) == entry_meta(old(self).entries@) + resource_plan(
                    res.body@.take(i as int),
                ),
            decreases n - i,
        {
            proof {
                assert(res.body@.take(i as int + 1).drop_last() =~= res.body@.take(i as int));
                assert(res.body@.take(i as int + 1).last() == res.body@[i as int]);
                if gfresh {
                    // this entry's own plan is fresh against everything
                    // registered so far: its items are a segment of the
                    // whole fresh plan, and the registry now holds the old
                    // entries plus the plan's earlier segments
                    let whole = resource_plan(res.body@);
                    let prefix = resource_plan(res.body@.take(i as int));
                    let prefix1 = resource_plan(res.body@.take(i as int + 1));
                    let item = entry_plan(res.body@[i as int]);
                    assert(prefix1 == prefix + item);
                    lemma_resource_plan_prefix(res.body@, i as int);
                    lemma_resource_plan_prefix(res.body@, i as int + 1);
                    assert(forall|x: int|
                        0 <= x < prefix.len() ==> #[trigger] prefix[x] == whole[x]);
                    assert(forall|x: int|
                        0 <= x < item.len() ==> #[trigger] item[x] == prefix1[prefix.len() + x]);
                    assert(forall|x: int|
                        0 <= x < item.len() ==> #[trigger] item[x] == whole[prefix.len() + x]);
                    assert(plan_fresh(entry_meta(self.entries@), item)) by {
                        let base = entry_meta(old(self).entries@);
                        assert forall|x: int, y: int|
                            0 <= x < y < item.len() implies (#[trigger] item[x]).0 != (
                        #[trigger] item[y]).0 by {
                            assert(item[x] == whole[prefix.len() + x]);
                            assert(item[y] == whole[prefix.len() + y]);
                        }
                        assert forall|x: int, y: int|
                            0 <= x < item.len() && 0 <= y < entry_meta(self.entries@).len() implies (
                        #[trigger] item[x]).0 != (#[trigger] entry_meta(self.entries@)[y]).0 by {
                            assert(item[x] == whole[prefix.len() + x]);
                            if y < base.len() {
                                assert(entry_meta(self.entries@)[y] == base[y]);
                            } else {
                                let yp = y - base.len();
                                assert(entry_meta(self.entries@)[y] == prefix[yp]);
                                assert(prefix[yp] == whole[yp]);
                                assert(yp < prefix.len() + x);
                            }
                        }
                    }
                }
            }
            match &res.body[i] {
                ast::Entry::Message(m) => {
                    let value_ref: Option<&ast::Pattern> = match &m.value {
                        Some(p) => Some(p),
                        None => None,
                    };
                    let res1 = self.compile_entry_item(
                        m.id.name.as_str(),
                        value_ref,
                        &m.attributes,
                        false,
                    );
                    match res1 {
                        Ok(()) => {},
                        Err(e) => {
                            proof {
                                assert(!gfresh);
                            }
                            return Err(e);
                        },
                    }
                },
                ast::Entry::Term(t) => {
                    let res1 = self.compile_entry_item(
                        t.id.name.as_str(),
                        Some(&t.value),
                        &t.attributes,
                        true,
                    );
                    match res1 {
                        Ok(()) => {},
                        Err(e) => {
                            proof {
                                assert(!gfresh);
                            }
                            return Err(e);
                        },
                    }
                },
                ast::Entry::Comment(_) => {},
            }
            i = i + 1;
        }
        proof {
            assert(res.body@.take(n as int) =~= res.body@);
        }
        Ok(())
    }
}

/// Lowers one variant key: a number literal must parse; an identifier is
/// a plural category keyword or an exact word.
fn compile_variant_key(k: &ast::VariantKey) -> (r: Result<CompiledKey, Error>)
    ensures
        r matches Ok(ck) ==> !(ck is Fallback),
        r matches Ok(ck) ==> crate::lowering::key_lowers(*k, ck),
        (match *k {
            ast::VariantKey::Identifier { .. } => r is Ok,
            ast::VariantKey::NumberLiteral { value } => match spec_number_value(value@) {
                Some((m, e)) => if value_fits(m, e) {
                    r is Ok
                } else {
                    r matches Err(Error::InvalidLiteral(s)) && s@ == value@
                },
                None => r matches Err(Error::InvalidLiteral(s)) && s@ == value@,
            },
        }),
    {
    match k {
        ast::VariantKey::Identifier { name } => {
            match crate::plural::plural_keyword(name.as_str()) {
                Some(cat) => Ok(CompiledKey::PluralWord(cat)),
                None => Ok(CompiledKey::Word(name.clone())),
            }
        },
        ast::VariantKey::NumberLiteral { value } => {
            match Number::from_str(value.as_str()) {
                Ok(n) => Ok(CompiledKey::Num(n)),
                Err(_) => Err(Error::InvalidLiteral(value.clone())),
            }
        },
    }
}


/// Lowers one inline expression under the given context.
#[verifier::loop_isolation(false)]
pub fn compile_inline(
    b: &LanguageBuilder,
    entry_id: &FluentId,
    ie: &ast::InlineExpression,
    ctx: &ExpressionContext,
) -> (r: Result<(CompiledInline, Vec<String>), Error>)
    ensures
        compile_inline_post(b.entries@, entry_id@, *ie, *ctx, r),
        r matches Ok(o) ==> (match o.0 {
            CompiledInline::Emit(ins) => ins@.len() == 1 && crate::lowering::inline_emit_lowers(
                b.entries@,
                *ie,
                ins@[0],
            ),
            CompiledInline::Arg(a) => crate::lowering::arg_value_lowers(b.entries@, *ie, a),
            CompiledInline::SelectorVar(n) => crate::lowering::sel_var_of(*ie) == Some(n@),
        }),
    decreases *ie,
{
    match ie {
        ast::InlineExpression::StringLiteral { value } => match ctx {
            ExpressionContext::Inline => {
                let mut ins: Vec<Instr> = Vec::new();
                ins.push(Instr::Text(value.clone()));
                Ok((CompiledInline::Emit(ins), Vec::new()))
            },
            ExpressionContext::Selector { .. } => Err(
                Error::UnsupportedFeature {
                    feature: "Usage of string literal as a selector".to_owned(),
                    id: entry_id.as_str().to_owned(),
                },
            ),
            _ => Ok((CompiledInline::Arg(ArgValue::LitText(value.clone())), Vec::new())),
        },
        ast::InlineExpression::NumberLiteral { value } => match ctx {
            ExpressionContext::Selector { .. } => Err(
                Error::UnsupportedFeature {
                    feature: "Usage of number literal as a selector".to_owned(),
                    id: entry_id.as_str().to_owned(),
                },
            ),
            ExpressionContext::Inline => match Number::from_str(value.as_str()) {
                Ok(num) => {
                    let mut ins: Vec<Instr> = Vec::new();
                    ins.push(Instr::Text(num.as_string()));
                    Ok((CompiledInline::Emit(ins), Vec::new()))
                },
                Err(_) => Err(Error::InvalidLiteral(value.clone())),
            },
            _ => match Number::from_str(value.as_str()) {
                Ok(num) => Ok((CompiledInline::Arg(ArgValue::LitNumber(num)), Vec::new())),
                Err(_) => Err(Error::InvalidLiteral(value.clone())),
            },
        },
        ast::InlineExpression::VariableReference { id } => match ctx {
            ExpressionContext::TermArguments { .. } => Err(
                Error::UnsupportedFeature {
                    feature: "Usage of variable reference as a term argument".to_owned(),
                    id: entry_id.as_str().to_owned(),
                },
            ),
            ExpressionContext::Inline => {
                let mut ins: Vec<Instr> = Vec::new();
                ins.push(Instr::VarText(id.name.clone()));
                let mut occs: Vec<String> = Vec::new();
                occs.push(id.name.clone());
                Ok((CompiledInline::Emit(ins), occs))
            },
            ExpressionContext::Selector { .. } => {
                let mut occs: Vec<String> = Vec::new();
                occs.push(id.name.clone());
                Ok((CompiledInline::SelectorVar(id.name.clone()), occs))
            },
            ExpressionContext::FunctionCall => {
                let mut occs: Vec<String> = Vec::new();
                occs.push(id.name.clone());
                Ok((CompiledInline::Arg(ArgValue::VarArg(id.name.clone())), occs))
            },
        },
        ast::InlineExpression::MessageReference { id, attribute } => {
            let rid = make_ref_id(id, attribute);
            match b.find_entry(&rid) {
                None => Err(
                    Error::UndeclaredMessageReference {
                        entry_id: entry_id.as_str().to_owned(),
                        reference_id: rid.as_str().to_owned(),
                    },
                ),
                Some(i) => match ctx {
                    ExpressionContext::Selector { .. } => Err(
                        Error::UnsupportedFeature {
                            feature: "Usage of message reference as selector".to_owned(),
                            id: entry_id.as_str().to_owned(),
                        },
                    ),
                    ExpressionContext::Inline => {
                        let mut ins: Vec<Instr> = Vec::new();
                        ins.push(Instr::CallMessage(i));
                        Ok((CompiledInline::Emit(ins), Vec::new()))
                    },
                    _ => Ok((CompiledInline::Arg(ArgValue::MsgValue(i)), Vec::new())),
                },
            }
        },
        ast::InlineExpression::TermReference { id, attribute, arguments } => {
            let rid = make_ref_id(id, attribute);
            match b.find_entry(&rid) {
                None => Err(
                    Error::UndeclaredTermReference {
                        entry_id: entry_id.as_str().to_owned(),
                        reference_id: rid.as_str().to_owned(),
                    },
                ),
                Some(ti) => match ctx {
                    ExpressionContext::Selector { .. } => Err(
                        Error::UnsupportedFeature {
                            feature: "Usage of term reference as selector".to_owned(),
                            id: entry_id.as_str().to_owned(),
                        },
                    ),
                    _ => {
                        let (pairs, occs) = match arguments {
                            Some(a) => {
                                proof {
                                    assert(decreases_to!(*ie => *a));
                                }
                                compile_term_args(b, entry_id, ti, a)?
                            },
                            None => (Vec::new(), Vec::new()),
                        };
                        match ctx {
                            ExpressionContext::Inline => {
                                let mut ins: Vec<Instr> = Vec::new();
                                ins.push(Instr::CallTerm { target: ti, args: pairs });
                                Ok((CompiledInline::Emit(ins), occs))
                            },
                            _ => Ok(
                                (CompiledInline::Arg(ArgValue::TermValue { target: ti, args: pairs }), occs),
                            ),
                        }
                    },
                },
            }
        },
        ast::InlineExpression::FunctionReference { id, arguments } => match ctx {
            ExpressionContext::Selector { .. } => Err(
                Error::UnsupportedFeature {
                    feature: "Usage of function reference as selector".to_owned(),
                    id: entry_id.as_str().to_owned(),
                },
            ),
            _ => {
                proof {
                    assert(decreases_to!(*ie => *arguments));
                }
                let (pos, named, occs) = compile_func_args(b, entry_id, arguments)?;
                match ctx {
                    ExpressionContext::Inline => {
                        let mut ins: Vec<Instr> = Vec::new();
                        ins.push(
                            Instr::FunctionCall {
                                name: id.name.clone(),
                                positional: pos,
                                named,
                            },
                        );
                        Ok((CompiledInline::Emit(ins), occs))
                    },
                    _ => Ok(
                        (
                            CompiledInline::Arg(
                                ArgValue::FuncValue {
                                    name: id.name.clone(),
                                    positional: pos,
                                    named,
                                },
                            ),
                            occs,
                        ),
                    ),
                }
            },
        },
        ast::InlineExpression::Placeable { expression } => match ctx {
            ExpressionContext::Inline => {
                proof {
                    assert(decreases_to!(*ie => **expression));
                }
                let (ins, occs) = compile_expression(b, entry_id, expression)?;
                Ok((CompiledInline::Emit(ins), occs))
            },
            _ => match &**expression {
                ast::Expression::Inline(inner) => {
                    proof {
                        assert(decreases_to!(*ie => *inner));
                    }
                    compile_inline(b, entry_id, inner, ctx)
                },
                ast::Expression::Select { .. } => Err(
                    Error::UnsupportedFeature {
                        feature: "Usage of select expression as an argument".to_owned(),
                        id: entry_id.as_str().to_owned(),
                    },
                ),
            },
        },
    }
}

/// Lowers the named arguments of a term call: every name must be one of
/// the callee's declared variables, and the pairs come out in the
/// callee's declaration order, whatever order the call wrote them in.
#[verifier::loop_isolation(false)]
#[verifier::rlimit(100)]
#[verifier::spinoff_prover]
pub fn compile_term_args(
    b: &LanguageBuilder,
    entry_id: &FluentId,
    target: usize,
    args: &ast::CallArguments,
) -> (r: Result<(Vec<(String, ArgValue)>, Vec<String>), Error>)
    requires
        target < b.entries@.len(),
    ensures
        r matches Ok(o) ==> {
            &&& forall|k: int|
                0 <= k < o.0@.len() ==> arg_wf(#[trigger] o.0@[k].1, b.entries@.len() as int)
            &&& crate::lowering::term_args_lower(
                b.entries@,
                b.entries@[target as int].vars@,
                args.named@,
                o.0@,
            )
            &&& !some_undeclared(b.entries@[target as int].vars@, args.named@)
        },
        some_undeclared(b.entries@[target as int].vars@, args.named@) ==> (r matches Err(e2) && (
        match e2 {
            Error::UndeclaredTermArgument { term_id, arg_name } => term_id@ == b.entries@[
                target as int].id@ && named_has(args.named@, arg_name@) && !vars_have(
                b.entries@[target as int].vars@,
                arg_name@,
            ),
            _ => false,
        })),
    decreases *args,
{
    let ghost tvars = b.entries@[target as int].vars@;
    // every named argument must use a declared variable name
    let nn = args.named.len();
    let mut j: usize = 0;
    while j < nn
        invariant
            j <= nn,
            nn == args.named@.len(),
            target < b.entries@.len(),
            tvars == b.entries@[target as int].vars@,
            forall|k: int| 0 <= k < j ==> vars_have(tvars, #[trigger] args.named@[k].name.name@),
        decreases nn - j,
    {
        let name = &args.named[j].name.name;
        let nv = b.entries[target].vars.len();
        let mut found = false;
        let mut v: usize = 0;
        while v < nv
            invariant
                v <= nv,
                nv == tvars.len(),
                target < b.entries@.len(),
                tvars == b.entries@[target as int].vars@,
                found == exists|k: int|
                    0 <= k < v && #[trigger] tvars[k].var_name@ == name@,
            decreases nv - v,
        {
            if str_eq(b.entries[target].vars[v].var_name.as_str(), name.as_str()) {
                found = true;
                proof {
                    assert(tvars[v as int].var_name@ == name@);
                }
            }
            v = v + 1;
        }
        if !found {
            proof {
                assert(!vars_have(tvars, name@));
                assert(args.named@[j as int].name.name@ == name@);
                assert(named_has(args.named@, name@));
                assert(some_undeclared(tvars, args.named@));
            }
            return Err(
                Error::UndeclaredTermArgument {
                    term_id: b.entries[target].id.as_str().to_owned(),
                    arg_name: name.clone(),
                },
            );
        }
        proof {
            assert(vars_have(tvars, args.named@[j as int].name.name@));
        }
        j = j + 1;
    }
    proof {
        if some_undeclared(tvars, args.named@) {
            let k = choose|k: int|
                0 <= k < args.named@.len() && !vars_have(tvars, #[trigger] args.named@[k].name.name@);
            assert(vars_have(tvars, args.named@[k].name.name@));
        }
    }
    // walk the declared variables in order; the last written argument
    // under each name is the one that counts
    let mut pairs: Vec<(String, ArgValue)> = Vec::new();
    let mut occs: Vec<String> = Vec::new();
    let nv = b.entries[target].vars.len();
    let mut i: usize = 0;
    while i < nv
        invariant
            i <= nv,
            nv == tvars.len(),
            target < b.entries@.len(),
            tvars == b.entries@[target as int].vars@,
            nn == args.named@.len(),
            pair_names(pairs@) == term_pair_names(tvars.take(i as int), args.named@),
            forall|k: int|
                0 <= k < pairs@.len() ==> arg_wf(#[trigger] pairs@[k].1, b.entries@.len() as int),
            forall|k: int|
                (0 <= k < nn && crate::lowering::is_last_named(args.named@, k) && vars_have(
                    tvars.take(i as int),
                    (#[trigger] args.named@[k]).name.name@,
                )) ==> exists|jj: int|
                    0 <= jj < pairs@.len() && (#[trigger] pairs@[jj]).0@
                        == args.named@[k].name.name@ && crate::lowering::arg_value_lowers(
                        b.entries@,
                        args.named@[k].value,
                        pairs@[jj].1,
                    ),
        decreases nv - i,
    {
        let ghost pre = tvars.take(i as int);
        let ghost pre1 = tvars.take(i as int + 1);
        proof {
            assert(pre1.drop_last() =~= pre);
            assert(pre1.last() == tvars[i as int]);
        }
        let vname = &b.entries[target].vars[i].var_name;
        let mut lastm: usize = nn;  // nn means none found
        let mut j: usize = 0;
        while j < nn
            invariant
                j <= nn,
                nn == args.named@.len(),
                lastm == nn || (lastm < j && args.named@[lastm as int].name.name@ == vname@),
                lastm == nn ==> forall|k: int|
                    0 <= k < j ==> #[trigger] args.named@[k].name.name@ != vname@,
                lastm < nn ==> forall|k: int|
                    lastm < k < j ==> #[trigger] args.named@[k].name.name@ != vname@,
            decreases nn - j,
        {
            if str_eq(args.named[j].name.name.as_str(), vname.as_str()) {
                lastm = j;
            }
            j = j + 1;
        }
        if lastm < nn {
            proof {
                assert(decreases_to!(*args => args.named@[lastm as int].value));
                assert(named_has(args.named@, tvars[i as int].var_name@));
            }
            let (out, mut sub) = compile_inline(
                b,
                entry_id,
                &args.named[lastm].value,
                &ExpressionContext::TermArguments { target },
            )?;
            let a = match out {
                CompiledInline::Arg(a) => a,
                _ => {
                    return Err(Error::UnexpectedContextState);
                },
            };
            let ghost oldpairs = pairs@;
            pairs.push((vname.clone(), a));
            occs.append(&mut sub);
            proof {
                assert(pair_names(pairs@) =~= pair_names(oldpairs).push(vname@));
                assert(pair_names(pairs@) =~= term_pair_names(pre1, args.named@));
                assert forall|k: int|
                    (0 <= k < nn && crate::lowering::is_last_named(args.named@, k) && vars_have(
                        pre1,
                        (#[trigger] args.named@[k]).name.name@,
                    )) implies exists|jj: int|
                    0 <= jj < pairs@.len() && (#[trigger] pairs@[jj]).0@
                        == args.named@[k].name.name@ && crate::lowering::arg_value_lowers(
                        b.entries@,
                        args.named@[k].value,
                        pairs@[jj].1,
                    ) by {
                    let nm = args.named@[k].name.name@;
                    if vars_have(pre, nm) {
                        let jj = choose|jj: int|
                            0 <= jj < oldpairs.len() && (#[trigger] oldpairs[jj]).0@ == nm
                                && crate::lowering::arg_value_lowers(
                                b.entries@,
                                args.named@[k].value,
                                oldpairs[jj].1,
                            );
                        assert(pairs@[jj] == oldpairs[jj]);
                    } else {
                        // the name is the variable just handled, and its
                        // last written argument is the one compiled
                        let vx = choose|vx: int|
                            0 <= vx < pre1.len() && (#[trigger] pre1[vx]).var_name@ == nm;
                        assert(vx == i as int) by {
                            if vx < i as int {
                                assert(pre[vx].var_name@ == nm);
                                assert(vars_have(pre, nm));
                            }
                        }
                        assert(nm == vname@);
                        assert(k == lastm as int) by {
                            if k < lastm as int {
                                assert(args.named@[lastm as int].name.name@ == nm);
                                assert(!crate::lowering::is_last_named(args.named@, k));
                            }
                            if k > lastm as int {
                                assert(args.named@[k].name.name@ != vname@);
                            }
                        }
                        let jj = pairs@.len() - 1;
                        assert(pairs@[jj].0@ == vname@);
                        assert(pairs@[jj].1 == a);
                        assert(crate::lowering::arg_value_lowers(
                            b.entries@,
                            args.named@[lastm as int].value,
                            a,
                        ));
                    }
                }
            }
        } else {
            proof {
                if named_has(args.named@, tvars[i as int].var_name@) {
                    let k = choose|k: int|
                        0 <= k < args.named@.len() && #[trigger] args.named@[k].name.name@
                            == tvars[i as int].var_name@;
                }
                assert(pair_names(pairs@) =~= term_pair_names(pre1, args.named@));
                assert forall|k: int|
                    (0 <= k < nn && crate::lowering::is_last_named(args.named@, k) && vars_have(
                        pre1,
                        (#[trigger] args.named@[k]).name.name@,
                    )) implies exists|jj: int|
                    0 <= jj < pairs@.len() && (#[trigger] pairs@[jj]).0@
                        == args.named@[k].name.name@ && crate::lowering::arg_value_lowers(
                        b.entries@,
                        args.named@[k].value,
                        pairs@[jj].1,
                    ) by {
                    let nm = args.named@[k].name.name@;
                    assert(nm != vname@);
                    assert(vars_have(pre, nm)) by {
                        let vx = choose|vx: int|
                            0 <= vx < pre1.len() && (#[trigger] pre1[vx]).var_name@ == nm;
                        assert(vx < i as int);
                        assert(pre[vx].var_name@ == nm);
                    }
                }
            }
        }
        i = i + 1;
    }
    proof {
        assert(tvars.take(nv as int) =~= tvars);
        assert(crate::lowering::term_args_lower(b.entries@, tvars, args.named@, pairs@));
    }
    Ok((pairs, occs))
}

/// Lowers the positional and named arguments of a function call, each in
/// call order.
#[verifier::loop_isolation(false)]
pub fn compile_func_args(b: &LanguageBuilder, entry_id: &FluentId, args: &ast::CallArguments) -> (r:
    Result<(Vec<ArgValue>, Vec<(String, ArgValue)>, Vec<String>), Error>)
    ensures
        r matches Ok(o) ==> {
            &&& forall|k: int|
                0 <= k < o.0@.len() ==> arg_wf(#[trigger] o.0@[k], b.entries@.len() as int)
            &&& forall|k: int|
                0 <= k < o.1@.len() ==> arg_wf(#[trigger] o.1@[k].1, b.entries@.len() as int)
            &&& crate::lowering::pos_args_lower(b.entries@, args.positional@, o.0@)
            &&& crate::lowering::named_args_lower(b.entries@, args.named@, o.1@)
        },
    decreases *args,
{
    let mut pos: Vec<ArgValue> = Vec::new();
    let mut named: Vec<(String, ArgValue)> = Vec::new();
    let mut occs: Vec<String> = Vec::new();
    let np = args.positional.len();
    let mut i: usize = 0;
    while i < np
        invariant
            i <= np,
            np == args.positional@.len(),
            pos@.len() == i,
            forall|k: int|
                0 <= k < pos@.len() ==> arg_wf(#[trigger] pos@[k], b.entries@.len() as int),
            forall|k: int|
                0 <= k < pos@.len() ==> crate::lowering::arg_value_lowers(
                    b.entries@,
                    #[trigger] args.positional@[k],
                    pos@[k],
                ),
        decreases np - i,
    {
        proof {
            assert(decreases_to!(*args => args.positional@[i as int]));
        }
        let (out, mut sub) = compile_inline(
            b,
            entry_id,
            &args.positional[i],
            &ExpressionContext::FunctionCall,
        )?;
        let a = match out {
            CompiledInline::Arg(a) => a,
            _ => {
                return Err(Error::UnexpectedContextState);
            },
        };
        let ghost oldpos = pos@;
        pos.push(a);
        occs.append(&mut sub);
        proof {
            assert forall|k: int| 0 <= k < pos@.len() implies arg_wf(
                #[trigger] pos@[k],
                b.entries@.len() as int,
            ) && crate::lowering::arg_value_lowers(b.entries@, args.positional@[k], pos@[k]) by {
                if k < oldpos.len() {
                    assert(pos@[k] == oldpos[k]);
                } else {
                    assert(pos@[k] == a);
                }
            }
        }
        i = i + 1;
    }
    let nn = args.named.len();
    let mut j: usize = 0;
    while j < nn
        invariant
            j <= nn,
            nn == args.named@.len(),
            named@.len() == j,
            forall|k: int|
                0 <= k < named@.len() ==> arg_wf(#[trigger] named@[k].1, b.entries@.len() as int),
            forall|k: int|
                0 <= k < named@.len() ==> #[trigger] named@[k].0@ == args.named@[k].name.name@
                    && crate::lowering::arg_value_lowers(
                    b.entries@,
                    args.named@[k].value,
                    named@[k].1,
                ),
        decreases nn - j,
    {
        proof {
            assert(decreases_to!(*args => args.named@[j as int].value));
        }
        let (out, mut sub) = compile_inline(
            b,
            entry_id,
            &args.named[j].value,
            &ExpressionContext::FunctionCall,
        )?;
        let a = match out {
            CompiledInline::Arg(a) => a,
            _ => {
                return Err(Error::UnexpectedContextState);
            },
        };
        let ghost oldnamed = named@;
        named.push((args.named[j].name.name.clone(), a));
        occs.append(&mut sub);
        proof {
            assert forall|k: int| 0 <= k < named@.len() implies #[trigger] named@[k].0@
                == args.named@[k].name.name@ && arg_wf(named@[k].1, b.entries@.len() as int)
                && crate::lowering::arg_value_lowers(
                b.entries@,
                args.named@[k].value,
                named@[k].1,
            ) by {
                if k < oldnamed.len() {
                    assert(named@[k] == oldnamed[k]);
                } else {
                    assert(named@[k].0@ == args.named@[j as int].name.name@);
                    assert(named@[k].1 == a);
                }
            }
        }
        j = j + 1;
    }
    Ok((pos, named, occs))
}

} // verus!
