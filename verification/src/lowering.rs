use vstd::prelude::*;

use crate::ast;
use crate::compile::{
    default_count, has_plural_variant, lemma_default_count_le, pair_names, ref_id_of,
    spec_find_dup, term_pair_names, vars_have,
};
use crate::error::Error;
use crate::ir::{ArgValue, Callable, CompiledKey, FluentVariable, Instr};
use crate::number::{spec_mantissa, spec_mnum_str, spec_number_value, spec_scale, value_fits};
use crate::plural::spec_plural_keyword;

verus! {

/// The compiled form of one variant key: plural keywords become their
/// category, other words match literally, number literals carry their
/// parsed value.
pub open spec fn key_lowers(k: ast::VariantKey, ck: CompiledKey) -> bool {
    match k {
        ast::VariantKey::Identifier { name } => match spec_plural_keyword(name@) {
            Some(c) => ck == CompiledKey::PluralWord(c),
            None => ck matches CompiledKey::Word(w) && w@ == name@,
        },
        ast::VariantKey::NumberLiteral { value } => match spec_number_value(value@) {
            Some((m, e)) => value_fits(m, e) && (ck matches CompiledKey::Num(n) && spec_mantissa(n)
                == m && spec_scale(n) == e),
            None => false,
        },
    }
}

/// The source index of the j-th variant that is not marked default.
pub open spec fn nd_index(vs: Seq<ast::Variant>, j: int) -> int
    decreases vs.len(),
{
    if vs.len() == 0 {
        0
    } else if vs[0].default {
        1 + nd_index(vs.subrange(1, vs.len() as int), j)
    } else if j == 0 {
        0
    } else {
        1 + nd_index(vs.subrange(1, vs.len() as int), j - 1)
    }
}

/// The source index of the first variant marked default.
pub open spec fn first_default_index(vs: Seq<ast::Variant>) -> int
    decreases vs.len(),
{
    if vs.len() == 0 {
        0
    } else if vs[0].default {
        0
    } else {
        1 + first_default_index(vs.subrange(1, vs.len() as int))
    }
}

/// The selector operand's variable name, where the operand is a variable
/// reference, possibly wrapped in placeables.
pub open spec fn sel_var_of(ie: ast::InlineExpression) -> Option<Seq<char>>
    decreases ie,
{
    match ie {
        ast::InlineExpression::VariableReference { id } => Some(id.name@),
        ast::InlineExpression::Placeable { expression } => match *expression {
            ast::Expression::Inline(inner) => sel_var_of(inner),
            ast::Expression::Select { .. } => None,
        },
        _ => None,
    }
}

/// Whether no later named argument reuses this one's name: the one whose
/// value counts.
pub open spec fn is_last_named(named: Seq<ast::NamedArgument>, k: int) -> bool {
    forall|k2: int|
        k < k2 < named.len() ==> (#[trigger] named[k2]).name.name@ != named[k].name.name@
}

/// What one lowered pattern step says of its source element.
pub open spec fn elem_lowers(entries: Seq<Callable>, el: ast::PatternElement, ins: Instr) -> bool
    decreases el,
{
    match el {
        ast::PatternElement::TextElement { value } => ins matches Instr::Text(t) && t@ == value@,
        ast::PatternElement::Placeable { expression } => expr_lowers(entries, expression, ins),
    }
}

/// A lowered pattern has one step per source element, each the element's
/// own lowering.
pub open spec fn pattern_lowers(entries: Seq<Callable>, es: Seq<ast::PatternElement>, ins: Seq<
    Instr,
>) -> bool
    decreases es,
{
    ins.len() == es.len() && forall|k: int|
        0 <= k < es.len() ==> elem_lowers(entries, #[trigger] es[k], ins[k])
}

/// What one lowered step says of its source expression: an inline
/// expression lowers by its node; a select expression lowers to a match
/// whose non-default arms keep source order and whose default arm comes
/// last as the catch-all.
pub open spec fn expr_lowers(entries: Seq<Callable>, e: ast::Expression, ins: Instr) -> bool
    decreases e,
{
    match e {
        ast::Expression::Inline(ie) => inline_emit_lowers(entries, ie, ins),
        ast::Expression::Select { selector, variants } => {
            &&& default_count(variants@) == 1
            &&& (ins matches Instr::Select { selector: sname, plural_rules, variants: cv } && {
                &&& sel_var_of(selector) == Some(sname@)
                &&& plural_rules == has_plural_variant(variants@)
                &&& cv@.len() == variants@.len()
                &&& (forall|j: int|
                    0 <= j < cv@.len() - 1 ==> {
                        let si = nd_index(variants@, j);
                        &&& 0 <= si < variants@.len()
                        &&& !variants@[si].default
                        &&& key_lowers(variants@[si].key, (#[trigger] cv@[j]).key)
                        &&& pattern_lowers(entries, variants@[si].value.elements@, cv@[j].body@)
                    })
                &&& (cv@.last().key is Fallback)
                &&& {
                    let di = first_default_index(variants@);
                    &&& 0 <= di < variants@.len()
                    &&& variants@[di].default
                    &&& pattern_lowers(entries, variants@[di].value.elements@, cv@.last().body@)
                }
            })
        },
    }
}

/// What one lowered inline step, emitted directly into the output, says
/// of its source node.
pub open spec fn inline_emit_lowers(entries: Seq<Callable>, ie: ast::InlineExpression, ins: Instr) -> bool
    decreases ie,
{
    match ie {
        ast::InlineExpression::StringLiteral { value } => ins matches Instr::Text(t) && t@
            == value@,
        ast::InlineExpression::NumberLiteral { value } => match spec_number_value(value@) {
            Some((m, e)) => value_fits(m, e) && (ins matches Instr::Text(t) && t@ == spec_mnum_str(
                m,
                e,
            )),
            None => false,
        },
        ast::InlineExpression::VariableReference { id } => ins matches Instr::VarText(n) && n@
            == id.name@,
        ast::InlineExpression::MessageReference { id, attribute } => {
            let rid = ref_id_of(
                id.name@,
                match attribute {
                    Some(a) => Some(a.name@),
                    None => None,
                },
            );
            ins matches Instr::CallMessage(i) && i < entries.len() && entries[i as int].id@ == rid
        },
        ast::InlineExpression::TermReference { id, attribute, arguments } => {
            let rid = ref_id_of(
                id.name@,
                match attribute {
                    Some(a) => Some(a.name@),
                    None => None,
                },
            );
            ins matches Instr::CallTerm { target, args } && target < entries.len()
                && entries[target as int].id@ == rid && (match arguments {
                Some(a) => term_args_lower(entries, entries[target as int].vars@, a.named@, args@),
                None => args@.len() == 0,
            })
        },
        ast::InlineExpression::FunctionReference { id, arguments } => ins matches Instr::FunctionCall {
            name,
            positional,
            named,
        } && name@ == id.name@ && pos_args_lower(entries, arguments.positional@, positional@)
            && named_args_lower(entries, arguments.named@, named@),
        ast::InlineExpression::Placeable { expression } => expr_lowers(entries, *expression, ins),
    }
}

/// What one lowered call argument says of its source node.
pub open spec fn arg_value_lowers(entries: Seq<Callable>, ie: ast::InlineExpression, a: ArgValue) -> bool
    decreases ie,
{
    match ie {
        ast::InlineExpression::StringLiteral { value } => a matches ArgValue::LitText(t) && t@
            == value@,
        ast::InlineExpression::NumberLiteral { value } => match spec_number_value(value@) {
            Some((m, e)) => value_fits(m, e) && (a matches ArgValue::LitNumber(n) && spec_mantissa(
                n,
            ) == m && spec_scale(n) == e),
            None => false,
        },
        ast::InlineExpression::VariableReference { id } => a matches ArgValue::VarArg(n) && n@
            == id.name@,
        ast::InlineExpression::MessageReference { id, attribute } => {
            let rid = ref_id_of(
                id.name@,
                match attribute {
                    Some(at) => Some(at.name@),
                    None => None,
                },
            );
            a matches ArgValue::MsgValue(i) && i < entries.len() && entries[i as int].id@ == rid
        },
        ast::InlineExpression::TermReference { id, attribute, arguments } => {
            let rid = ref_id_of(
                id.name@,
                match attribute {
                    Some(at) => Some(at.name@),
                    None => None,
                },
            );
            a matches ArgValue::TermValue { target, args } && target < entries.len()
                && entries[target as int].id@ == rid && (match arguments {
                Some(ar) => term_args_lower(entries, entries[target as int].vars@, ar.named@, args@),
                None => args@.len() == 0,
            })
        },
        ast::InlineExpression::FunctionReference { id, arguments } => a matches ArgValue::FuncValue {
            name,
            positional,
            named,
        } && name@ == id.name@ && pos_args_lower(entries, arguments.positional@, positional@)
            && named_args_lower(entries, arguments.named@, named@),
        ast::InlineExpression::Placeable { expression } => match *expression {
            ast::Expression::Inline(inner) => arg_value_lowers(entries, inner, a),
            ast::Expression::Select { .. } => false,
        },
    }
}

/// Positional call arguments lower pointwise, in call order.
pub open spec fn pos_args_lower(entries: Seq<Callable>, src: Seq<ast::InlineExpression>, out: Seq<
    ArgValue,
>) -> bool
    decreases src,
{
    out.len() == src.len() && forall|k: int|
        0 <= k < src.len() ==> arg_value_lowers(entries, #[trigger] src[k], out[k])
}

/// Named call arguments lower pointwise, keeping their written names.
pub open spec fn named_args_lower(entries: Seq<Callable>, src: Seq<ast::NamedArgument>, out: Seq<
    (String, ArgValue),
>) -> bool
    decreases src,
{
    out.len() == src.len() && forall|k: int|
        0 <= k < src.len() ==> (#[trigger] out[k]).0@ == src[k].name.name@ && arg_value_lowers(
            entries,
            src[k].value,
            out[k].1,
        )
}

/// Term call arguments lower into the callee's declaration order, and the
/// value bound under each provided name is the lowering of the last
/// argument written under it.
pub open spec fn term_args_lower(
    entries: Seq<Callable>,
    tvars: Seq<FluentVariable>,
    named: Seq<ast::NamedArgument>,
    pairs: Seq<(String, ArgValue)>,
) -> bool
    decreases named,
{
    &&& pair_names(pairs) == term_pair_names(tvars, named)
    &&& forall|k: int|
        (0 <= k < named.len() && is_last_named(named, k) && vars_have(
            tvars,
            (#[trigger] named[k]).name.name@,
        )) ==> exists|j: int|
            0 <= j < pairs.len() && (#[trigger] pairs[j]).0@ == named[k].name.name@
                && arg_value_lowers(entries, named[k].value, pairs[j].1)
}

/// The j-th non-default variant sits where the source wrote it.
pub proof fn lemma_nd_index_at(vs: Seq<ast::Variant>, i: int)
    requires
        0 <= i < vs.len(),
        !vs[i].default,
    ensures
        nd_index(vs, i - default_count(vs.take(i))) == i,
        0 <= i - default_count(vs.take(i)),
    decreases vs.len(),
{
    lemma_default_count_le(vs.take(i));
    assert(vs.take(i).len() == i);
    if i == 0 {
        assert(vs.take(0) =~= Seq::<ast::Variant>::empty());
    } else {
        let t = vs.subrange(1, vs.len() as int);
        assert(t[i - 1] == vs[i]);
        lemma_nd_index_at(t, i - 1);
        assert(t.take(i - 1) =~= vs.take(i).subrange(1, i));
        lemma_default_count_skip(vs.take(i));
        if vs[0].default {
            assert(default_count(vs.take(i)) == 1 + default_count(t.take(i - 1)));
        } else {
            assert(default_count(vs.take(i)) == default_count(t.take(i - 1)));
        }
    }
}

/// A nonempty list's default count splits at its head.
proof fn lemma_default_count_skip(vs: Seq<ast::Variant>)
    requires
        vs.len() >= 1,
    ensures
        default_count(vs) == default_count(vs.subrange(1, vs.len() as int)) + if vs[0].default {
            1int
        } else {
            0int
        },
    decreases vs.len(),
{
    if vs.len() == 1 {
        assert(vs.drop_last() =~= Seq::<ast::Variant>::empty());
        assert(vs.subrange(1, 1) =~= Seq::<ast::Variant>::empty());
        assert(vs.last() == vs[0]);
    } else {
        let dl = vs.drop_last();
        lemma_default_count_skip(dl);
        assert(dl[0] == vs[0]);
        assert(vs.subrange(1, vs.len() as int).drop_last() =~= dl.subrange(1, dl.len() as int));
        assert(vs.subrange(1, vs.len() as int).last() == vs.last());
    }
}

/// Where the scan for the first default stops is `first_default_index`.
pub proof fn lemma_first_default_at(vs: Seq<ast::Variant>, i: int)
    requires
        0 <= i < vs.len(),
        vs[i].default,
        forall|j: int| 0 <= j < i ==> !(#[trigger] vs[j]).default,
    ensures
        first_default_index(vs) == i,
    decreases vs.len(),
{
    if i > 0 {
        let t = vs.subrange(1, vs.len() as int);
        assert(t[i - 1] == vs[i]);
        assert(forall|j: int| 0 <= j < i - 1 ==> t[j] == vs[j + 1] && !vs[j + 1].default);
        lemma_first_default_at(t, i - 1);
    }
}


/// The results the compiler owes on an inline expression whose fate its
/// node alone decides: literals and variable references always lower,
/// references lower exactly when their target is registered, and a bad
/// number literal names itself.
pub open spec fn inline_forced(
    entries: Seq<Callable>,
    entry_id: Seq<char>,
    ie: ast::InlineExpression,
    r: Result<(Vec<Instr>, Vec<String>), Error>,
) -> bool {
    match ie {
        ast::InlineExpression::VariableReference { .. } => r is Ok,
        ast::InlineExpression::StringLiteral { .. } => r is Ok,
        ast::InlineExpression::NumberLiteral { value } => match spec_number_value(value@) {
            Some((m, e)) => {
                if value_fits(m, e) {
                    r is Ok
                } else {
                    r matches Err(Error::InvalidLiteral(s)) && s@ == value@
                }
            },
            None => r matches Err(Error::InvalidLiteral(s)) && s@ == value@,
        },
        ast::InlineExpression::MessageReference { id, attribute } => {
            let rid = ref_id_of(
                id.name@,
                match attribute {
                    Some(a) => Some(a.name@),
                    None => None,
                },
            );
            if spec_find_dup(entries, rid) {
                r is Ok
            } else {
                r matches Err(Error::UndeclaredMessageReference { entry_id: eid, reference_id })
                    && eid@ == entry_id && reference_id@ == rid
            }
        },
        ast::InlineExpression::TermReference { id, attribute, arguments } => {
            let rid = ref_id_of(
                id.name@,
                match attribute {
                    Some(a) => Some(a.name@),
                    None => None,
                },
            );
            if spec_find_dup(entries, rid) {
                arguments is None ==> r is Ok
            } else {
                r matches Err(Error::UndeclaredTermReference { entry_id: eid, reference_id })
                    && eid@ == entry_id && reference_id@ == rid
            }
        },
        _ => true,
    }
}

} // verus!
