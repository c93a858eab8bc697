use vstd::prelude::*;

use crate::function::{named_models, number, pos_models, spec_number_fn, value_model, ValueModel};
use crate::ir::{
    arg_size, arg_wf, body_size, body_wf, instr_size, instr_wf, lemma_arg_size_pos,
    lemma_body_size_elem, lemma_body_size_head, lemma_instr_size_pos, lemma_named_args_size_elem,
    lemma_named_args_size_head, lemma_pos_args_size_elem, lemma_pos_args_size_head,
    lemma_variants_size_elem, named_args_size, pos_args_size, ArgValue, Callable, CompiledKey,
    CompiledVariant, Instr, LanguageBuilder,
};
use crate::number::{spec_mantissa, spec_mnum_str, spec_scale, Number};
use crate::plural::{plural_category_lookup, plural_category_of, spec_plural_keyword_str, PluralCategory};
use crate::strutil::str_eq;
use crate::value::Value;

verus! {

/// The value bound to a name, or the absent value when nothing is.
pub open spec fn spec_lookup(args: Seq<(Seq<char>, ValueModel)>, name: Seq<char>) -> ValueModel
    decreases args.len(),
{
    if args.len() == 0 {
        ValueModel::VEmpty
    } else if args[0].0 == name {
        args[0].1
    } else {
        spec_lookup(args.subrange(1, args.len() as int), name)
    }
}

/// Inline rendering of a bound value: text as written, a number as its
/// canonical decimal text, nothing for an absent or failed value.
pub open spec fn spec_value_text(v: ValueModel) -> Seq<char> {
    match v {
        ValueModel::VText(s) => s,
        ValueModel::VNumber(m, e, _) => spec_mnum_str(m, e),
        ValueModel::VEmpty => Seq::empty(),
        ValueModel::VError => Seq::empty(),
    }
}

/// The runtime key a selector derives from its operand: the text form,
/// the numeric form, and, when the selector wants them, the plural
/// category of the numeric form under the language's cardinal rules.
pub struct SelKeyModel {
    pub text: Option<Seq<char>>,
    pub num: Option<(int, nat)>,
    pub plural: Option<PluralCategory>,
}

pub open spec fn spec_selector_key(lang: Seq<char>, plural_rules: bool, v: ValueModel) -> SelKeyModel {
    match v {
        ValueModel::VText(s) => SelKeyModel { text: Some(s), num: None, plural: None },
        ValueModel::VNumber(m, e, _) => SelKeyModel {
            text: None,
            num: Some((m, e)),
            plural: if plural_rules {
                plural_category_of(lang, spec_mnum_str(m, e))
            } else {
                None
            },
        },
        _ => SelKeyModel { text: None, num: None, plural: None },
    }
}

/// Whether one variant key accepts the selector key: a number key wants a
/// numeric operand with the same value; a plural keyword accepts the
/// matching text or a numeric operand of that category; a word wants
/// exactly that text; the default accepts everything.
pub open spec fn spec_key_matches(ck: CompiledKey, k: SelKeyModel) -> bool {
    match ck {
        CompiledKey::Num(n) => k.text is None && k.num == Some(
            (spec_mantissa(n), spec_scale(n)),
        ),
        CompiledKey::PluralWord(c) => (k.text == Some(spec_plural_keyword_str(c))) || (k.plural
            == Some(c)),
        CompiledKey::Word(w) => k.text == Some(w@) && k.num is None && k.plural is None,
        CompiledKey::Fallback => true,
    }
}

/// The first variant whose key accepts the selector key.
pub open spec fn spec_select_index(variants: Seq<CompiledVariant>, k: SelKeyModel) -> int
    decreases variants.len(),
{
    if variants.len() == 0 {
        0
    } else if spec_key_matches(variants[0].key, k) {
        0
    } else {
        1 + spec_select_index(variants.subrange(1, variants.len() as int), k)
    }
}

/// The function table of the runtime: the built-in NUMBER, and a failed
/// value for any name nothing resolves.
pub open spec fn spec_apply_function(
    name: Seq<char>,
    pos: Seq<ValueModel>,
    named: Seq<(Seq<char>, ValueModel)>,
) -> ValueModel {
    if name == "NUMBER"@ {
        spec_number_fn(pos, named)
    } else {
        ValueModel::VError
    }
}

/// The text the entry at `idx` formats under the given bindings.
pub open spec fn spec_format_entry(
    reg: Seq<Callable>,
    lang: Seq<char>,
    idx: int,
    args: Seq<(Seq<char>, ValueModel)>,
) -> Seq<char>
    decreases idx, body_size(reg[idx].body@) + 1, 0nat,
{
    if 0 <= idx < reg.len() {
        spec_format_body(reg, lang, idx, reg[idx].body@, args)
    } else {
        Seq::empty()
    }
}

/// The text a sequence of lowered steps emits.
pub open spec fn spec_format_body(
    reg: Seq<Callable>,
    lang: Seq<char>,
    idx: int,
    b: Seq<Instr>,
    args: Seq<(Seq<char>, ValueModel)>,
) -> Seq<char>
    decreases idx, body_size(b), 1nat,
{
    if b.len() == 0 {
        Seq::empty()
    } else {
        proof {
            lemma_body_size_head(b);
            lemma_body_size_elem(b, 0);
            lemma_instr_size_pos(b[0]);
        }
        spec_format_instr(reg, lang, idx, b[0], args) + spec_format_body(
            reg,
            lang,
            idx,
            b.subrange(1, b.len() as int),
            args,
        )
    }
}

/// The text one lowered step emits.
pub open spec fn spec_format_instr(
    reg: Seq<Callable>,
    lang: Seq<char>,
    idx: int,
    ins: Instr,
    args: Seq<(Seq<char>, ValueModel)>,
) -> Seq<char>
    decreases idx, instr_size(ins), 0nat,
{
    match ins {
        Instr::Text(t) => t@,
        Instr::VarText(n) => spec_value_text(spec_lookup(args, n@)),
        Instr::CallMessage(j) => {
            if j < idx {
                spec_format_entry(reg, lang, j as int, Seq::empty())
            } else {
                Seq::empty()
            }
        },
        Instr::CallTerm { target, args: pairs } => {
            if target < idx {
                spec_format_entry(
                    reg,
                    lang,
                    target as int,
                    spec_eval_pairs(reg, lang, idx, pairs@, args),
                )
            } else {
                Seq::empty()
            }
        },
        Instr::FunctionCall { name, positional, named } => spec_value_text(
            spec_apply_function(
                name@,
                spec_eval_pos(reg, lang, idx, positional@, args),
                spec_eval_pairs(reg, lang, idx, named@, args),
            ),
        ),
        Instr::Select { selector, plural_rules, variants } => {
            let k = spec_selector_key(lang, plural_rules, spec_lookup(args, selector@));
            let vi = spec_select_index(variants@, k);
            if 0 <= vi < variants@.len() {
                proof {
                    lemma_variants_size_elem(variants@, vi);
                }
                spec_format_body(reg, lang, idx, variants@[vi].body@, args)
            } else {
                Seq::empty()
            }
        },
    }
}

/// The values a lowered named-argument list evaluates to.
pub open spec fn spec_eval_pairs(
    reg: Seq<Callable>,
    lang: Seq<char>,
    idx: int,
    pairs: Seq<(String, ArgValue)>,
    args: Seq<(Seq<char>, ValueModel)>,
) -> Seq<(Seq<char>, ValueModel)>
    decreases idx, named_args_size(pairs), 1nat,
{
    if pairs.len() == 0 {
        Seq::empty()
    } else {
        proof {
            lemma_named_args_size_head(pairs);
            lemma_named_args_size_elem(pairs, 0);
            lemma_arg_size_pos(pairs[0].1);
        }
        seq![(pairs[0].0@, spec_eval_arg(reg, lang, idx, pairs[0].1, args))] + spec_eval_pairs(
            reg,
            lang,
            idx,
            pairs.subrange(1, pairs.len() as int),
            args,
        )
    }
}

/// The values a lowered positional-argument list evaluates to.
pub open spec fn spec_eval_pos(
    reg: Seq<Callable>,
    lang: Seq<char>,
    idx: int,
    s: Seq<ArgValue>,
    args: Seq<(Seq<char>, ValueModel)>,
) -> Seq<ValueModel>
    decreases idx, pos_args_size(s), 1nat,
{
    if s.len() == 0 {
        Seq::empty()
    } else {
        proof {
            lemma_pos_args_size_head(s);
            lemma_pos_args_size_elem(s, 0);
            lemma_arg_size_pos(s[0]);
        }
        seq![spec_eval_arg(reg, lang, idx, s[0], args)] + spec_eval_pos(
            reg,
            lang,
            idx,
            s.subrange(1, s.len() as int),
            args,
        )
    }
}

/// The value one lowered call argument evaluates to.
pub open spec fn spec_eval_arg(
    reg: Seq<Callable>,
    lang: Seq<char>,
    idx: int,
    a: ArgValue,
    args: Seq<(Seq<char>, ValueModel)>,
) -> ValueModel
    decreases idx, arg_size(a), 0nat,
{
    match a {
        ArgValue::LitText(t) => ValueModel::VText(t@),
        ArgValue::LitNumber(n) => ValueModel::VNumber(spec_mantissa(n), spec_scale(n), None),
        ArgValue::VarArg(n) => spec_lookup(args, n@),
        ArgValue::MsgValue(j) => {
            if j < idx {
                ValueModel::VText(spec_format_entry(reg, lang, j as int, Seq::empty()))
            } else {
                ValueModel::VError
            }
        },
        ArgValue::TermValue { target, args: pairs } => {
            if target < idx {
                ValueModel::VText(
                    spec_format_entry(
                        reg,
                        lang,
                        target as int,
                        spec_eval_pairs(reg, lang, idx, pairs@, args),
                    ),
                )
            } else {
                ValueModel::VError
            }
        },
        ArgValue::FuncValue { name, positional, named } => spec_apply_function(
            name@,
            spec_eval_pos(reg, lang, idx, positional@, args),
            spec_eval_pairs(reg, lang, idx, named@, args),
        ),
    }
}

/// A body's text is its front part's text followed by its last step's.
pub proof fn lemma_format_body_snoc(
    reg: Seq<Callable>,
    lang: Seq<char>,
    idx: int,
    b: Seq<Instr>,
    args: Seq<(Seq<char>, ValueModel)>,
)
    requires
        b.len() >= 1,
    ensures
        spec_format_body(reg, lang, idx, b, args) == spec_format_body(
            reg,
            lang,
            idx,
            b.drop_last(),
            args,
        ) + spec_format_instr(reg, lang, idx, b.last(), args),
    decreases b.len(),
{
    if b.len() == 1 {
        assert(b.subrange(1, 1) =~= Seq::<Instr>::empty());
        assert(b.drop_last() =~= Seq::<Instr>::empty());
        assert(b.last() == b[0]);
        assert(spec_format_instr(reg, lang, idx, b[0], args) + Seq::<char>::empty()
            =~= spec_format_instr(reg, lang, idx, b[0], args));
        assert(Seq::<char>::empty() + spec_format_instr(reg, lang, idx, b.last(), args)
            =~= spec_format_instr(reg, lang, idx, b.last(), args));
    } else {
        let tail = b.subrange(1, b.len() as int);
        lemma_format_body_snoc(reg, lang, idx, tail, args);
        let dl = b.drop_last();
        assert(tail.drop_last() =~= dl.subrange(1, dl.len() as int));
        assert(tail.last() == b.last());
        assert(dl[0] == b[0]);
        assert(spec_format_instr(reg, lang, idx, b[0], args) + (spec_format_body(
            reg,
            lang,
            idx,
            tail.drop_last(),
            args,
        ) + spec_format_instr(reg, lang, idx, b.last(), args)) =~= spec_format_body(
            reg,
            lang,
            idx,
            dl,
            args,
        ) + spec_format_instr(reg, lang, idx, b.last(), args));
    }
}

/// A named-argument list's values are its front part's values followed by
/// its last argument's.
pub proof fn lemma_eval_pairs_snoc(
    reg: Seq<Callable>,
    lang: Seq<char>,
    idx: int,
    pairs: Seq<(String, ArgValue)>,
    args: Seq<(Seq<char>, ValueModel)>,
)
    requires
        pairs.len() >= 1,
    ensures
        spec_eval_pairs(reg, lang, idx, pairs, args) == spec_eval_pairs(
            reg,
            lang,
            idx,
            pairs.drop_last(),
            args,
        ).push((pairs.last().0@, spec_eval_arg(reg, lang, idx, pairs.last().1, args))),
    decreases pairs.len(),
{
    if pairs.len() == 1 {
        assert(pairs.subrange(1, 1) =~= Seq::<(String, ArgValue)>::empty());
        assert(pairs.drop_last() =~= Seq::<(String, ArgValue)>::empty());
        assert(pairs.last() == pairs[0]);
        assert(seq![(pairs[0].0@, spec_eval_arg(reg, lang, idx, pairs[0].1, args))] + Seq::<
            (Seq<char>, ValueModel),
        >::empty() =~= Seq::<(Seq<char>, ValueModel)>::empty().push(
            (pairs.last().0@, spec_eval_arg(reg, lang, idx, pairs.last().1, args)),
        ));
    } else {
        let tail = pairs.subrange(1, pairs.len() as int);
        lemma_eval_pairs_snoc(reg, lang, idx, tail, args);
        let dl = pairs.drop_last();
        assert(tail.drop_last() =~= dl.subrange(1, dl.len() as int));
        assert(tail.last() == pairs.last());
        assert(dl[0] == pairs[0]);
        assert(seq![(pairs[0].0@, spec_eval_arg(reg, lang, idx, pairs[0].1, args))] + spec_eval_pairs(
            reg,
            lang,
            idx,
            tail.drop_last(),
            args,
        ).push((pairs.last().0@, spec_eval_arg(reg, lang, idx, pairs.last().1, args)))
            =~= spec_eval_pairs(reg, lang, idx, dl, args).push(
            (pairs.last().0@, spec_eval_arg(reg, lang, idx, pairs.last().1, args)),
        ));
    }
}

/// A positional-argument list's values are its front part's values
/// followed by its last argument's.
pub proof fn lemma_eval_pos_snoc(
    reg: Seq<Callable>,
    lang: Seq<char>,
    idx: int,
    s: Seq<ArgValue>,
    args: Seq<(Seq<char>, ValueModel)>,
)
    requires
        s.len() >= 1,
    ensures
        spec_eval_pos(reg, lang, idx, s, args) == spec_eval_pos(
            reg,
            lang,
            idx,
            s.drop_last(),
            args,
        ).push(spec_eval_arg(reg, lang, idx, s.last(), args)),
    decreases s.len(),
{
    if s.len() == 1 {
        assert(s.subrange(1, 1) =~= Seq::<ArgValue>::empty());
        assert(s.drop_last() =~= Seq::<ArgValue>::empty());
        assert(s.last() == s[0]);
        assert(seq![spec_eval_arg(reg, lang, idx, s[0], args)] + Seq::<ValueModel>::empty()
            =~= Seq::<ValueModel>::empty().push(spec_eval_arg(reg, lang, idx, s.last(), args)));
    } else {
        let tail = s.subrange(1, s.len() as int);
        lemma_eval_pos_snoc(reg, lang, idx, tail, args);
        let dl = s.drop_last();
        assert(tail.drop_last() =~= dl.subrange(1, dl.len() as int));
        assert(tail.last() == s.last());
        assert(dl[0] == s[0]);
        assert(seq![spec_eval_arg(reg, lang, idx, s[0], args)] + spec_eval_pos(
            reg,
            lang,
            idx,
            tail.drop_last(),
            args,
        ).push(spec_eval_arg(reg, lang, idx, s.last(), args)) =~= spec_eval_pos(
            reg,
            lang,
            idx,
            dl,
            args,
        ).push(spec_eval_arg(reg, lang, idx, s.last(), args)));
    }
}

/// Looks a variable up among the bindings; the first binding of the name
/// wins, and an unbound name reads as the absent value.
fn lookup_binding(args: &Vec<(String, Value)>, name: &str) -> (r: Value)
    ensures
        value_model(r) == spec_lookup(named_models(args@), name@),
{
    let n = args.len();
    let mut i: usize = 0;
    proof {
        assert(named_models(args@).subrange(0, n as int) =~= named_models(args@));
    }
    while i < n
        invariant
            i <= n,
            n == args@.len(),
            spec_lookup(named_models(args@), name@) == spec_lookup(
                named_models(args@).subrange(i as int, n as int),
                name@,
            ),
        decreases n - i,
    {
        let ghost rest = named_models(args@).subrange(i as int, n as int);
        proof {
            assert(rest[0] == (args@[i as int].0@, value_model(args@[i as int].1)));
            assert(rest.subrange(1, rest.len() as int) =~= named_models(args@).subrange(
                i as int + 1,
                n as int,
            ));
        }
        if str_eq(args[i].0.as_str(), name) {
            return args[i].1.clone();
        }
        i = i + 1;
    }
    proof {
        assert(named_models(args@).subrange(n as int, n as int) =~= Seq::<
            (Seq<char>, ValueModel),
        >::empty());
    }
    Value::Empty
}

/// Appends the inline rendering of a value.
fn render_value(v: &Value, out: &mut String)
    ensures
        final(out)@ == old(out)@ + spec_value_text(value_model(*v)),
{
    match v {
        Value::Text(s) => {
            out.append(s.as_str());
        },
        Value::Number { value, .. } => {
            let t = value.as_string();
            out.append(t.as_str());
        },
        Value::Empty => {
            proof {
                assert(old(out)@ + Seq::<char>::empty() =~= old(out)@);
            }
        },
        Value::Error => {
            proof {
                assert(old(out)@ + Seq::<char>::empty() =~= old(out)@);
            }
        },
    }
}

/// The runtime selector key as carried by the formatter.
pub struct SelectorKey {
    pub text: Option<String>,
    pub num: Option<Number>,
    pub plural: Option<PluralCategory>,
}

pub open spec fn sel_key_model(k: SelectorKey) -> SelKeyModel {
    SelKeyModel {
        text: match k.text {
            Some(s) => Some(s@),
            None => None,
        },
        num: match k.num {
            Some(n) => Some((spec_mantissa(n), spec_scale(n))),
            None => None,
        },
        plural: k.plural,
    }
}

/// Derives the selector key of a bound value, asking the language's
/// plural rules only when some variant needs a category.
fn selector_key(lang: &str, plural_rules: bool, v: &Value) -> (r: SelectorKey)
    ensures
        sel_key_model(r) == spec_selector_key(lang@, plural_rules, value_model(*v)),
{
    match v {
        Value::Text(s) => SelectorKey { text: Some(s.clone()), num: None, plural: None },
        Value::Number { value, .. } => {
            let plural = if plural_rules {
                let dec = value.as_string();
                plural_category_lookup(lang, dec.as_str())
            } else {
                None
            };
            SelectorKey { text: None, num: Some(*value), plural }
        },
        _ => SelectorKey { text: None, num: None, plural: None },
    }
}

/// Whether one variant key accepts the runtime key.
fn key_matches(ck: &CompiledKey, k: &SelectorKey) -> (r: bool)
    ensures
        r == spec_key_matches(*ck, sel_key_model(*k)),
{
    match ck {
        CompiledKey::Num(n) => match (&k.text, &k.num) {
            (Option::None, Option::Some(m)) => m.equals(n),
            _ => false,
        },
        CompiledKey::PluralWord(c) => {
            let text_hit = match &k.text {
                Option::Some(t) => str_eq(t.as_str(), c.as_str()),
                Option::None => false,
            };
            let plural_hit = match &k.plural {
                Option::Some(p) => *p == *c,
                Option::None => false,
            };
            text_hit || plural_hit
        },
        CompiledKey::Word(w) => match (&k.text, &k.num, &k.plural) {
            (Option::Some(t), Option::None, Option::None) => str_eq(t.as_str(), w.as_str()),
            _ => false,
        },
        CompiledKey::Fallback => true,
    }
}

/// Picks the first variant whose key accepts the runtime key; the default
/// variant stands last and accepts everything, so one always exists.
fn select_variant(variants: &Vec<CompiledVariant>, k: &SelectorKey) -> (r: usize)
    requires
        variants@.len() >= 1,
        variants@.last().key is Fallback,
    ensures
        r < variants@.len(),
        r == spec_select_index(variants@, sel_key_model(*k)),
{
    let n = variants.len();
    let mut i: usize = 0;
    proof {
        assert(variants@.subrange(0, n as int) =~= variants@);
    }
    while i < n
        invariant
            i <= n,
            n == variants@.len(),
            spec_select_index(variants@, sel_key_model(*k)) == i + spec_select_index(
                variants@.subrange(i as int, n as int),
                sel_key_model(*k),
            ),
            forall|j: int|
                0 <= j < i ==> !spec_key_matches(#[trigger] variants@[j].key, sel_key_model(*k)),
        decreases n - i,
    {
        let ghost rest = variants@.subrange(i as int, n as int);
        proof {
            assert(rest[0] == variants@[i as int]);
            assert(rest.subrange(1, rest.len() as int) =~= variants@.subrange(
                i as int + 1,
                n as int,
            ));
        }
        if key_matches(&variants[i].key, k) {
            return i;
        }
        i = i + 1;
    }
    proof {
        // the last variant accepts everything, so the scan cannot pass it
        assert(!spec_key_matches(variants@[n - 1].key, sel_key_model(*k)));
        assert(false);
    }
    0
}

/// Runs the function named in a lowered call: the built-in NUMBER, or a
/// failed value for a name the runtime does not know.
fn apply_function(name: &str, pos: &Vec<Value>, named: &Vec<(String, Value)>) -> (r: Value)
    ensures
        value_model(r) == spec_apply_function(name@, pos_models(pos@), named_models(named@)),
{
    if str_eq(name, "NUMBER") {
        number(pos, named)
    } else {
        Value::Error
    }
}

/// Formats the registry entry at `idx` under the given bindings,
/// appending its text to `out`.
pub fn format_entry(b: &LanguageBuilder, idx: usize, args: &Vec<(String, Value)>, out: &mut String)
    requires
        b.wf(),
        idx < b.entries@.len(),
    ensures
        final(out)@ == old(out)@ + spec_format_entry(
            b.entries@,
            b.language_id@,
            idx as int,
            named_models(args@),
        ),
    decreases idx, body_size(b.entries@[idx as int].body@) + 1, 0nat,
{
    format_body(b, idx, &b.entries[idx].body, args, out);
}

/// Formats a sequence of lowered steps.
#[verifier::loop_isolation(false)]
fn format_body(
    b: &LanguageBuilder,
    idx: usize,
    ins: &Vec<Instr>,
    args: &Vec<(String, Value)>,
    out: &mut String,
)
    requires
        b.wf(),
        idx <= b.entries@.len(),
        body_wf(ins@, idx as int),
    ensures
        final(out)@ == old(out)@ + spec_format_body(
            b.entries@,
            b.language_id@,
            idx as int,
            ins@,
            named_models(args@),
        ),
    decreases idx, body_size(ins@), 1nat,
{
    let n = ins.len();
    let mut i: usize = 0;
    while i < n
        invariant
            i <= n,
            out@ == old(out)@ + spec_format_body(
                b.entries@,
                b.language_id@,
                idx as int,
                ins@.subrange(0, i as int),
                named_models(args@),
            ),
        decreases n - i,
    {
        proof {
            lemma_body_size_elem(ins@, i as int);
        }
        format_instr(b, idx, &ins[i], args, out);
        proof {
            let pre1 = ins@.subrange(0, i as int + 1);
            lemma_format_body_snoc(
                b.entries@,
                b.language_id@,
                idx as int,
                pre1,
                named_models(args@),
            );
            assert(pre1.drop_last() =~= ins@.subrange(0, i as int));
            assert(pre1.last() == ins@[i as int]);
            assert(out@ =~= old(out)@ + spec_format_body(
                b.entries@,
                b.language_id@,
                idx as int,
                pre1,
                named_models(args@),
            ));
        }
        i = i + 1;
    }
    proof {
        assert(ins@.subrange(0, n as int) =~= ins@);
    }
}

/// Formats one lowered step.
#[verifier::loop_isolation(false)]
fn format_instr(
    b: &LanguageBuilder,
    idx: usize,
    ins: &Instr,
    args: &Vec<(String, Value)>,
    out: &mut String,
)
    requires
        b.wf(),
        idx <= b.entries@.len(),
        instr_wf(*ins, idx as int),
    ensures
        final(out)@ == old(out)@ + spec_format_instr(
            b.entries@,
            b.language_id@,
            idx as int,
            *ins,
            named_models(args@),
        ),
    decreases idx, instr_size(*ins), 0nat,
{
    match ins {
        Instr::Text(t) => {
            out.append(t.as_str());
        },
        Instr::VarText(n) => {
            let v = lookup_binding(args, n.as_str());
            render_value(&v, out);
        },
        Instr::CallMessage(j) => {
            let empty: Vec<(String, Value)> = Vec::new();
            proof {
                assert(named_models(empty@) =~= Seq::<(Seq<char>, ValueModel)>::empty());
            }
            format_entry(b, *j, &empty, out);
        },
        Instr::CallTerm { target, args: pairs } => {
            let vals = eval_pairs(b, idx, pairs, args);
            format_entry(b, *target, &vals, out);
        },
        Instr::FunctionCall { name, positional, named } => {
            let pv = eval_pos(b, idx, positional, args);
            let nv = eval_pairs(b, idx, named, args);
            let v = apply_function(name.as_str(), &pv, &nv);
            render_value(&v, out);
        },
        Instr::Select { selector, plural_rules, variants } => {
            let operand = lookup_binding(args, selector.as_str());
            let key = selector_key(b.language_id.as_str(), *plural_rules, &operand);
            let vi = select_variant(variants, &key);
            proof {
                lemma_variants_size_elem(variants@, vi as int);
            }
            format_body(b, idx, &variants[vi].body, args, out);
        },
    }
}

/// Evaluates a lowered named-argument list into runtime bindings.
#[verifier::loop_isolation(false)]
fn eval_pairs(
    b: &LanguageBuilder,
    idx: usize,
    pairs: &Vec<(String, ArgValue)>,
    args: &Vec<(String, Value)>,
) -> (r: Vec<(String, Value)>)
    requires
        b.wf(),
        idx <= b.entries@.len(),
        forall|k: int| 0 <= k < pairs@.len() ==> arg_wf(#[trigger] pairs@[k].1, idx as int),
    ensures
        named_models(r@) == spec_eval_pairs(
            b.entries@,
            b.language_id@,
            idx as int,
            pairs@,
            named_models(args@),
        ),
    decreases idx, named_args_size(pairs@), 1nat,
{
    let mut r: Vec<(String, Value)> = Vec::new();
    let n = pairs.len();
    let mut i: usize = 0;
    while i < n
        invariant
            i <= n,
            named_models(r@) == spec_eval_pairs(
                b.entries@,
                b.language_id@,
                idx as int,
                pairs@.subrange(0, i as int),
                named_models(args@),
            ),
        decreases n - i,
    {
        proof {
            lemma_named_args_size_elem(pairs@, i as int);
        }
        let v = eval_arg(b, idx, &pairs[i].1, args);
        let ghost oldr = r@;
        r.push((pairs[i].0.clone(), v));
        proof {
            let pre1 = pairs@.subrange(0, i as int + 1);
            lemma_eval_pairs_snoc(
                b.entries@,
                b.language_id@,
                idx as int,
                pre1,
                named_models(args@),
            );
            assert(pre1.drop_last() =~= pairs@.subrange(0, i as int));
            assert(pre1.last() == pairs@[i as int]);
            assert(named_models(r@) =~= named_models(oldr).push(
                (pairs@[i as int].0@, value_model(v)),
            ));
            assert(named_models(r@) =~= spec_eval_pairs(
                b.entries@,
                b.language_id@,
                idx as int,
                pre1,
                named_models(args@),
            ));
        }
        i = i + 1;
    }
    proof {
        assert(pairs@.subrange(0, n as int) =~= pairs@);
    }
    r
}

/// Splitting a named-argument list splits its evaluation.
proof fn lemma_eval_pairs_split(
    reg: Seq<Callable>,
    lang: Seq<char>,
    idx: int,
    pairs: Seq<(String, ArgValue)>,
    k: int,
    args: Seq<(Seq<char>, ValueModel)>,
)
    requires
        0 <= k <= pairs.len(),
    ensures
        spec_eval_pairs(reg, lang, idx, pairs, args) == spec_eval_pairs(
            reg,
            lang,
            idx,
            pairs.subrange(0, k),
            args,
        ) + spec_eval_pairs(reg, lang, idx, pairs.subrange(k, pairs.len() as int), args),
    decreases k,
{
    if k == 0 {
        assert(pairs.subrange(0, 0) =~= Seq::<(String, ArgValue)>::empty());
        assert(pairs.subrange(0, pairs.len() as int) =~= pairs);
        assert(Seq::<(Seq<char>, ValueModel)>::empty() + spec_eval_pairs(
            reg,
            lang,
            idx,
            pairs,
            args,
        ) =~= spec_eval_pairs(reg, lang, idx, pairs, args));
    } else {
        let tail = pairs.subrange(1, pairs.len() as int);
        lemma_eval_pairs_split(reg, lang, idx, tail, k - 1, args);
        assert(tail.subrange(0, k - 1) =~= pairs.subrange(1, k));
        assert(tail.subrange(k - 1, tail.len() as int) =~= pairs.subrange(k, pairs.len() as int));
        let pre = pairs.subrange(0, k);
        assert(pre.subrange(1, pre.len() as int) =~= pairs.subrange(1, k));
        assert(pre[0] == pairs[0]);
        assert(seq![(pairs[0].0@, spec_eval_arg(reg, lang, idx, pairs[0].1, args))] + (
        spec_eval_pairs(reg, lang, idx, pairs.subrange(1, k), args) + spec_eval_pairs(
            reg,
            lang,
            idx,
            pairs.subrange(k, pairs.len() as int),
            args,
        )) =~= spec_eval_pairs(reg, lang, idx, pre, args) + spec_eval_pairs(
            reg,
            lang,
            idx,
            pairs.subrange(k, pairs.len() as int),
            args,
        ));
    }
}

/// Evaluates a lowered positional-argument list.
#[verifier::loop_isolation(false)]
fn eval_pos(
    b: &LanguageBuilder,
    idx: usize,
    s: &Vec<ArgValue>,
    args: &Vec<(String, Value)>,
) -> (r: Vec<Value>)
    requires
        b.wf(),
        idx <= b.entries@.len(),
        forall|k: int| 0 <= k < s@.len() ==> arg_wf(#[trigger] s@[k], idx as int),
    ensures
        pos_models(r@) == spec_eval_pos(
            b.entries@,
            b.language_id@,
            idx as int,
            s@,
            named_models(args@),
        ),
    decreases idx, pos_args_size(s@), 1nat,
{
    let mut r: Vec<Value> = Vec::new();
    let n = s.len();
    let mut i: usize = 0;
    while i < n
        invariant
            i <= n,
            pos_models(r@) == spec_eval_pos(
                b.entries@,
                b.language_id@,
                idx as int,
                s@.subrange(0, i as int),
                named_models(args@),
            ),
        decreases n - i,
    {
        proof {
            lemma_pos_args_size_elem(s@, i as int);
        }
        let v = eval_arg(b, idx, &s[i], args);
        let ghost oldr = r@;
        r.push(v);
        proof {
            let pre1 = s@.subrange(0, i as int + 1);
            lemma_eval_pos_snoc(
                b.entries@,
                b.language_id@,
                idx as int,
                pre1,
                named_models(args@),
            );
            assert(pre1.drop_last() =~= s@.subrange(0, i as int));
            assert(pre1.last() == s@[i as int]);
            assert(pos_models(r@) =~= pos_models(oldr).push(value_model(v)));
            assert(pos_models(r@) =~= spec_eval_pos(
                b.entries@,
                b.language_id@,
                idx as int,
                pre1,
                named_models(args@),
            ));
        }
        i = i + 1;
    }
    proof {
        assert(s@.subrange(0, n as int) =~= s@);
    }
    r
}

/// Splitting a positional-argument list splits its evaluation.
proof fn lemma_eval_pos_split(
    reg: Seq<Callable>,
    lang: Seq<char>,
    idx: int,
    s: Seq<ArgValue>,
    k: int,
    args: Seq<(Seq<char>, ValueModel)>,
)
    requires
        0 <= k <= s.len(),
    ensures
        spec_eval_pos(reg, lang, idx, s, args) == spec_eval_pos(reg, lang, idx, s.subrange(0, k), args)
            + spec_eval_pos(reg, lang, idx, s.subrange(k, s.len() as int), args),
    decreases k,
{
    if k == 0 {
        assert(s.subrange(0, 0) =~= Seq::<ArgValue>::empty());
        assert(s.subrange(0, s.len() as int) =~= s);
        assert(Seq::<ValueModel>::empty() + spec_eval_pos(reg, lang, idx, s, args)
            =~= spec_eval_pos(reg, lang, idx, s, args));
    } else {
        let tail = s.subrange(1, s.len() as int);
        lemma_eval_pos_split(reg, lang, idx, tail, k - 1, args);
        assert(tail.subrange(0, k - 1) =~= s.subrange(1, k));
        assert(tail.subrange(k - 1, tail.len() as int) =~= s.subrange(k, s.len() as int));
        let pre = s.subrange(0, k);
        assert(pre.subrange(1, pre.len() as int) =~= s.subrange(1, k));
        assert(pre[0] == s[0]);
        assert(seq![spec_eval_arg(reg, lang, idx, s[0], args)] + (spec_eval_pos(
            reg,
            lang,
            idx,
            s.subrange(1, k),
            args,
        ) + spec_eval_pos(reg, lang, idx, s.subrange(k, s.len() as int), args)) =~= spec_eval_pos(
            reg,
            lang,
            idx,
            pre,
            args,
        ) + spec_eval_pos(reg, lang, idx, s.subrange(k, s.len() as int), args));
    }
}

/// Evaluates one lowered call argument.
fn eval_arg(b: &LanguageBuilder, idx: usize, a: &ArgValue, args: &Vec<(String, Value)>) -> (r:
    Value)
    requires
        b.wf(),
        idx <= b.entries@.len(),
        arg_wf(*a, idx as int),
    ensures
        value_model(r) == spec_eval_arg(
            b.entries@,
            b.language_id@,
            idx as int,
            *a,
            named_models(args@),
        ),
    decreases idx, arg_size(*a), 0nat,
{
    match a {
        ArgValue::LitText(t) => Value::Text(t.clone()),
        ArgValue::LitNumber(n) => Value::Number { value: *n, format: None },
        ArgValue::VarArg(n) => lookup_binding(args, n.as_str()),
        ArgValue::MsgValue(j) => {
            let empty: Vec<(String, Value)> = Vec::new();
            proof {
                assert(named_models(empty@) =~= Seq::<(Seq<char>, ValueModel)>::empty());
            }
            let mut buf = String::new();
            format_entry(b, *j, &empty, &mut buf);
            Value::Text(buf)
        },
        ArgValue::TermValue { target, args: pairs } => {
            let vals = eval_pairs(b, idx, pairs, args);
            let mut buf = String::new();
            format_entry(b, *target, &vals, &mut buf);
            Value::Text(buf)
        },
        ArgValue::FuncValue { name, positional, named } => {
            let pv = eval_pos(b, idx, positional, args);
            let nv = eval_pairs(b, idx, named, args);
            apply_function(name.as_str(), &pv, &nv)
        },
    }
}

} // verus!
