use vstd::prelude::*;

use crate::compile::{entry_meta, resource_plan};
use crate::function::ValueModel;
use crate::interp::{
    spec_eval_arg, spec_eval_pairs, spec_eval_pos, spec_format_body, spec_format_entry,
    spec_format_instr, spec_key_matches, spec_lookup, spec_select_index, SelKeyModel,
};
use crate::ir::{
    body_size, callable_vars_wf, lemma_arg_size_pos, lemma_body_size_elem, lemma_body_size_head,
    lemma_instr_size_pos, lemma_named_args_size_elem, lemma_named_args_size_head,
    lemma_pos_args_size_elem, lemma_pos_args_size_head, lemma_variants_size_elem, reg_wf,
    spec_public_id, var_names_of, ArgValue, Callable, CompiledKey, CompiledVariant, Instr,
    LanguageBuilder,
};
use crate::order::{lemma_sorted_unique, views_of};
use crate::plural::PluralCategory;

verus! {

/// Uniqueness: a well-formed registry that holds exactly what a resource
/// plans forces every two planned identifiers apart. Contrapositively, by
/// the compiler's contract on `add_resource`, a resource that plans two
/// entries under one identifier never compiles into a registry, and no
/// callable of it is registered.
pub proof fn lemma_duplicate_entry_rejected(b: LanguageBuilder, body: Seq<crate::ast::Entry>)
    requires
        b.wf(),
        entry_meta(b.entries@) == resource_plan(body),
    ensures
        forall|i: int, j: int|
            0 <= i < j < resource_plan(body).len() ==> (#[trigger] resource_plan(body)[i]).0 != (
            #[trigger] resource_plan(body)[j]).0,
{
    let plan = resource_plan(body);
    assert forall|i: int, j: int| 0 <= i < j < plan.len() implies (#[trigger] plan[i]).0 != (
    #[trigger] plan[j]).0 by {
        assert(entry_meta(b.entries@)[i] == plan[i]);
        assert(entry_meta(b.entries@)[j] == plan[j]);
        assert(b.entries@[i].id@ == plan[i].0);
        assert(b.entries@[j].id@ == plan[j].0);
    }
}

/// Round-trip naming: the public key reads only the identifier and the
/// set of variable names. Two languages' callables for one id whose
/// variables are the same names in any order carry the same public key,
/// so they become one public entry point.
pub proof fn lemma_public_id_order_blind(a: Callable, b: Callable)
    requires
        callable_vars_wf(a),
        callable_vars_wf(b),
        a.id@ == b.id@,
        var_names_of(a.vars@).to_set() == var_names_of(b.vars@).to_set(),
    ensures
        spec_public_id(a) == spec_public_id(b),
{
    lemma_sorted_unique(views_of(a.sorted_var_names@), views_of(b.sorted_var_names@));
}

/// Selector determinism: with the default variant last, the chosen
/// variant index is always in range, its key accepts the selector key,
/// and no earlier variant's key does — exactly one variant is ever
/// selected, the first one that matches.
pub proof fn lemma_select_index_props(variants: Seq<CompiledVariant>, k: SelKeyModel)
    requires
        variants.len() >= 1,
        variants.last().key is Fallback,
    ensures
        0 <= spec_select_index(variants, k) < variants.len(),
        spec_key_matches(variants[spec_select_index(variants, k)].key, k),
        forall|j: int|
            0 <= j < spec_select_index(variants, k) ==> !spec_key_matches(
                #[trigger] variants[j].key,
                k,
            ),
    decreases variants.len(),
{
    if !spec_key_matches(variants[0].key, k) {
        let tail = variants.subrange(1, variants.len() as int);
        assert(tail.last() == variants.last());
        lemma_select_index_props(tail, k);
        let vi = spec_select_index(variants, k);
        assert(vi == 1 + spec_select_index(tail, k));
        assert(variants[vi] == tail[vi - 1]);
        assert forall|j: int| 0 <= j < vi implies !spec_key_matches(
            #[trigger] variants[j].key,
            k,
        ) by {
            if j > 0 {
                assert(variants[j] == tail[j - 1]);
            }
        }
    }
}

/// Plural fallback, first half: when the operand's plural category is
/// some category `c` and a variant keyed on `c` stands before any other
/// variant that accepts the key, that variant is selected, even when no
/// variant matches the number literally.
pub proof fn lemma_plural_category_selected(
    variants: Seq<CompiledVariant>,
    k: SelKeyModel,
    c: PluralCategory,
    i: int,
)
    requires
        variants.len() >= 1,
        variants.last().key is Fallback,
        k.plural == Some(c),
        0 <= i < variants.len(),
        variants[i].key == CompiledKey::PluralWord(c),
        forall|j: int| 0 <= j < i ==> !spec_key_matches(#[trigger] variants[j].key, k),
    ensures
        spec_select_index(variants, k) == i,
{
    lemma_select_index_props(variants, k);
    let vi = spec_select_index(variants, k);
    assert(spec_key_matches(variants[i].key, k));
    if vi < i {
        assert(!spec_key_matches(variants[vi].key, k));
    }
    if vi > i {
        assert(!spec_key_matches(variants[i].key, k));
    }
}

/// Plural fallback, second half: when no variant before the default
/// accepts the key — the language has no matching category and nothing
/// matches literally — the default variant is selected.
pub proof fn lemma_plural_falls_to_default(variants: Seq<CompiledVariant>, k: SelKeyModel)
    requires
        variants.len() >= 1,
        variants.last().key is Fallback,
        forall|j: int|
            0 <= j < variants.len() - 1 ==> !spec_key_matches(#[trigger] variants[j].key, k),
    ensures
        spec_select_index(variants, k) == variants.len() - 1,
{
    lemma_select_index_props(variants, k);
    let vi = spec_select_index(variants, k);
    if vi < variants.len() - 1 {
        assert(!spec_key_matches(variants[vi].key, k));
    }
}

/// Distinct binding names.
pub open spec fn unique_binding_names(a: Seq<(Seq<char>, ValueModel)>) -> bool {
    forall|i: int, j: int| 0 <= i < j < a.len() ==> (#[trigger] a[i]).0 != (#[trigger] a[j]).0
}

/// With unique names, every binding answers its own lookup.
pub proof fn lemma_lookup_member(a: Seq<(Seq<char>, ValueModel)>, i: int)
    requires
        unique_binding_names(a),
        0 <= i < a.len(),
    ensures
        spec_lookup(a, a[i].0) == a[i].1,
    decreases a.len(),
{
    if i > 0 {
        let tail = a.subrange(1, a.len() as int);
        assert(forall|x: int, y: int|
            0 <= x < y < tail.len() ==> (#[trigger] tail[x]).0 != (#[trigger] tail[y]).0)
            by {
            assert(forall|x: int| 0 <= x < tail.len() ==> #[trigger] tail[x] == a[x + 1]);
        }
        lemma_lookup_member(tail, i - 1);
        assert(tail[i - 1] == a[i]);
    }
}

/// A name no binding carries reads as the absent value.
pub proof fn lemma_lookup_absent(a: Seq<(Seq<char>, ValueModel)>, n: Seq<char>)
    requires
        forall|i: int| 0 <= i < a.len() ==> (#[trigger] a[i]).0 != n,
    ensures
        spec_lookup(a, n) == ValueModel::VEmpty,
    decreases a.len(),
{
    if a.len() > 0 {
        let tail = a.subrange(1, a.len() as int);
        assert(forall|x: int| 0 <= x < tail.len() ==> #[trigger] tail[x] == a[x + 1]);
        lemma_lookup_absent(tail, n);
    }
}

/// Two binding lists with unique names over the same set of pairs answer
/// every lookup alike: the order the caller wrote the arguments in does
/// not matter.
pub proof fn lemma_permuted_bindings_lookup(
    a1: Seq<(Seq<char>, ValueModel)>,
    a2: Seq<(Seq<char>, ValueModel)>,
    n: Seq<char>,
)
    requires
        unique_binding_names(a1),
        unique_binding_names(a2),
        a1.to_set() == a2.to_set(),
    ensures
        spec_lookup(a1, n) == spec_lookup(a2, n),
{
    if exists|i: int| 0 <= i < a1.len() && (#[trigger] a1[i]).0 == n {
        let i = choose|i: int| 0 <= i < a1.len() && (#[trigger] a1[i]).0 == n;
        lemma_lookup_member(a1, i);
        assert(a1.contains(a1[i]));
        assert(a1.to_set().contains(a1[i]));
        assert(a2.to_set().contains(a1[i]));
        assert(a2.contains(a1[i]));
        let j = choose|j: int| 0 <= j < a2.len() && a2[j] == a1[i];
        lemma_lookup_member(a2, j);
    } else {
        lemma_lookup_absent(a1, n);
        assert forall|j: int| 0 <= j < a2.len() implies (#[trigger] a2[j]).0 != n by {
            assert(a2.contains(a2[j]));
            assert(a2.to_set().contains(a2[j]));
            assert(a1.to_set().contains(a2[j]));
            assert(a1.contains(a2[j]));
            let i = choose|i: int| 0 <= i < a1.len() && a1[i] == a2[j];
        }
        lemma_lookup_absent(a2, n);
    }
}

/// Bindings that answer every lookup alike format every entry alike.
pub proof fn lemma_format_entry_lookup_blind(
    reg: Seq<Callable>,
    lang: Seq<char>,
    idx: int,
    a1: Seq<(Seq<char>, ValueModel)>,
    a2: Seq<(Seq<char>, ValueModel)>,
)
    requires
        forall|n: Seq<char>| spec_lookup(a1, n) == spec_lookup(a2, n),
    ensures
        spec_format_entry(reg, lang, idx, a1) == spec_format_entry(reg, lang, idx, a2),
    decreases idx, body_size(reg[idx].body@) + 1, 0nat,
{
    if 0 <= idx < reg.len() {
        lemma_format_body_lookup_blind(reg, lang, idx, reg[idx].body@, a1, a2);
    }
}

proof fn lemma_format_body_lookup_blind(
    reg: Seq<Callable>,
    lang: Seq<char>,
    idx: int,
    b: Seq<Instr>,
    a1: Seq<(Seq<char>, ValueModel)>,
    a2: Seq<(Seq<char>, ValueModel)>,
)
    requires
        forall|n: Seq<char>| spec_lookup(a1, n) == spec_lookup(a2, n),
    ensures
        spec_format_body(reg, lang, idx, b, a1) == spec_format_body(reg, lang, idx, b, a2),
    decreases idx, body_size(b), 1nat,
{
    if b.len() > 0 {
        lemma_body_size_head(b);
        lemma_body_size_elem(b, 0);
        lemma_instr_size_pos(b[0]);
        lemma_format_instr_lookup_blind(reg, lang, idx, b[0], a1, a2);
        lemma_format_body_lookup_blind(reg, lang, idx, b.subrange(1, b.len() as int), a1, a2);
    }
}

proof fn lemma_format_instr_lookup_blind(
    reg: Seq<Callable>,
    lang: Seq<char>,
    idx: int,
    ins: Instr,
    a1: Seq<(Seq<char>, ValueModel)>,
    a2: Seq<(Seq<char>, ValueModel)>,
)
    requires
        forall|n: Seq<char>| spec_lookup(a1, n) == spec_lookup(a2, n),
    ensures
        spec_format_instr(reg, lang, idx, ins, a1) == spec_format_instr(reg, lang, idx, ins, a2),
    decreases idx, crate::ir::instr_size(ins), 0nat,
{
    match ins {
        Instr::Text(_) => {},
        Instr::VarText(n) => {
            assert(spec_lookup(a1, n@) == spec_lookup(a2, n@));
        },
        Instr::CallMessage(_) => {},
        Instr::CallTerm { target, args } => {
            lemma_eval_pairs_lookup_blind(reg, lang, idx, args@, a1, a2);
        },
        Instr::FunctionCall { positional, named, .. } => {
            lemma_eval_pos_lookup_blind(reg, lang, idx, positional@, a1, a2);
            lemma_eval_pairs_lookup_blind(reg, lang, idx, named@, a1, a2);
        },
        Instr::Select { selector, plural_rules, variants } => {
            assert(spec_lookup(a1, selector@) == spec_lookup(a2, selector@));
            let k = crate::interp::spec_selector_key(lang, plural_rules, spec_lookup(a1, selector@));
            let vi = spec_select_index(variants@, k);
            if 0 <= vi < variants@.len() {
                lemma_variants_size_elem(variants@, vi);
                lemma_format_body_lookup_blind(reg, lang, idx, variants@[vi].body@, a1, a2);
            }
        },
    }
}

proof fn lemma_eval_pairs_lookup_blind(
    reg: Seq<Callable>,
    lang: Seq<char>,
    idx: int,
    pairs: Seq<(String, ArgValue)>,
    a1: Seq<(Seq<char>, ValueModel)>,
    a2: Seq<(Seq<char>, ValueModel)>,
)
    requires
        forall|n: Seq<char>| spec_lookup(a1, n) == spec_lookup(a2, n),
    ensures
        spec_eval_pairs(reg, lang, idx, pairs, a1) == spec_eval_pairs(reg, lang, idx, pairs, a2),
    decreases idx, crate::ir::named_args_size(pairs), 1nat,
{
    if pairs.len() > 0 {
        lemma_named_args_size_head(pairs);
        lemma_named_args_size_elem(pairs, 0);
        lemma_arg_size_pos(pairs[0].1);
        lemma_eval_arg_lookup_blind(reg, lang, idx, pairs[0].1, a1, a2);
        lemma_eval_pairs_lookup_blind(
            reg,
            lang,
            idx,
            pairs.subrange(1, pairs.len() as int),
            a1,
            a2,
        );
    }
}

proof fn lemma_eval_pos_lookup_blind(
    reg: Seq<Callable>,
    lang: Seq<char>,
    idx: int,
    s: Seq<ArgValue>,
    a1: Seq<(Seq<char>, ValueModel)>,
    a2: Seq<(Seq<char>, ValueModel)>,
)
    requires
        forall|n: Seq<char>| spec_lookup(a1, n) == spec_lookup(a2, n),
    ensures
        spec_eval_pos(reg, lang, idx, s, a1) == spec_eval_pos(reg, lang, idx, s, a2),
    decreases idx, crate::ir::pos_args_size(s), 1nat,
{
    if s.len() > 0 {
        lemma_pos_args_size_head(s);
        lemma_pos_args_size_elem(s, 0);
        lemma_arg_size_pos(s[0]);
        lemma_eval_arg_lookup_blind(reg, lang, idx, s[0], a1, a2);
        lemma_eval_pos_lookup_blind(reg, lang, idx, s.subrange(1, s.len() as int), a1, a2);
    }
}

proof fn lemma_eval_arg_lookup_blind(
    reg: Seq<Callable>,
    lang: Seq<char>,
    idx: int,
    a: ArgValue,
    a1: Seq<(Seq<char>, ValueModel)>,
    a2: Seq<(Seq<char>, ValueModel)>,
)
    requires
        forall|n: Seq<char>| spec_lookup(a1, n) == spec_lookup(a2, n),
    ensures
        spec_eval_arg(reg, lang, idx, a, a1) == spec_eval_arg(reg, lang, idx, a, a2),
    decreases idx, crate::ir::arg_size(a), 0nat,
{
    match a {
        ArgValue::LitText(_) => {},
        ArgValue::LitNumber(_) => {},
        ArgValue::VarArg(n) => {
            assert(spec_lookup(a1, n@) == spec_lookup(a2, n@));
        },
        ArgValue::MsgValue(_) => {},
        ArgValue::TermValue { target, args } => {
            lemma_eval_pairs_lookup_blind(reg, lang, idx, args@, a1, a2);
        },
        ArgValue::FuncValue { positional, named, .. } => {
            lemma_eval_pos_lookup_blind(reg, lang, idx, positional@, a1, a2);
            lemma_eval_pairs_lookup_blind(reg, lang, idx, named@, a1, a2);
        },
    }
}

/// Term-argument order blindness: binding the same named values in any
/// order formats every entry identically, because a formatted entry reads
/// its bindings only through name lookup.
pub proof fn lemma_format_order_blind(
    reg: Seq<Callable>,
    lang: Seq<char>,
    idx: int,
    a1: Seq<(Seq<char>, ValueModel)>,
    a2: Seq<(Seq<char>, ValueModel)>,
)
    requires
        unique_binding_names(a1),
        unique_binding_names(a2),
        a1.to_set() == a2.to_set(),
    ensures
        spec_format_entry(reg, lang, idx, a1) == spec_format_entry(reg, lang, idx, a2),
{
    assert forall|n: Seq<char>| spec_lookup(a1, n) == spec_lookup(a2, n) by {
        lemma_permuted_bindings_lookup(a1, a2, n);
    }
    lemma_format_entry_lookup_blind(reg, lang, idx, a1, a2);
}

} // verus!
