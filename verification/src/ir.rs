use vstd::prelude::*;

use crate::casing::snake_of;
use crate::ident::{FluentId, PublicFluentId};
use crate::number::Number;
use crate::order::{strictly_sorted, views_of};
use crate::plural::PluralCategory;

verus! {

/// One variable of a callable: the source name as written in the
/// resource, and the binding name the emitted signature would use.
#[derive(Debug)]
pub struct FluentVariable {
    pub var_name: String,
    pub var_ident: String,
}

impl Clone for FluentVariable {
    fn clone(&self) -> (r: Self)
        ensures
            r == *self,
    {
        FluentVariable { var_name: self.var_name.clone(), var_ident: self.var_ident.clone() }
    }
}

/// A lowered call argument: what a term call or function call passes.
/// References to other entries carry the index of the already-registered
/// callee in the registry.
#[derive(Debug)]
pub enum ArgValue {
    /// A string literal, passed as a text value.
    LitText(String),
    /// A number literal, passed as a number value.
    LitNumber(Number),
    /// The caller's bound variable, passed through (function calls only).
    VarArg(String),
    /// A message or term formatted into a fresh buffer, passed as text.
    MsgValue(usize),
    /// A term with named arguments formatted into a fresh buffer,
    /// arguments already in the callee's declared order.
    TermValue { target: usize, args: Vec<(String, ArgValue)> },
    /// A function call's result, passed through.
    FuncValue { name: String, positional: Vec<ArgValue>, named: Vec<(String, ArgValue)> },
}

/// One lowered pattern step of a callable's body.
#[derive(Debug)]
pub enum Instr {
    /// Emit this text.
    Text(String),
    /// Render the value bound to this variable source name.
    VarText(String),
    /// Run the callee into the same sink, passing no variables.
    CallMessage(usize),
    /// Run the callee into the same sink with named arguments, already in
    /// the callee's declared order.
    CallTerm { target: usize, args: Vec<(String, ArgValue)> },
    /// Evaluate the function over its arguments and render the result.
    FunctionCall { name: String, positional: Vec<ArgValue>, named: Vec<(String, ArgValue)> },
    /// Derive a selector key from the named variable and run the first
    /// matching variant; the last variant is the default.
    Select { selector: String, plural_rules: bool, variants: Vec<CompiledVariant> },
}

#[derive(Debug)]
pub struct CompiledVariant {
    pub key: CompiledKey,
    pub body: Vec<Instr>,
}

/// The match key of one selector variant.
#[derive(Debug)]
pub enum CompiledKey {
    /// Matches a number operand equal to this literal.
    Num(Number),
    /// Matches a text operand equal to the category keyword, or a number
    /// operand whose plural category is this one.
    PluralWord(PluralCategory),
    /// Matches exactly this text operand.
    Word(String),
    /// The default variant: matches everything.
    Fallback,
}

/// A call argument may only point at entries registered before `bound`.
pub open spec fn arg_wf(a: ArgValue, bound: int) -> bool
    decreases a,
{
    match a {
        ArgValue::LitText(_) => true,
        ArgValue::LitNumber(_) => true,
        ArgValue::VarArg(_) => true,
        ArgValue::MsgValue(i) => i < bound,
        ArgValue::TermValue { target, args } => target < bound && forall|k: int|
            0 <= k < args@.len() ==> arg_wf(#[trigger] args@[k].1, bound),
        ArgValue::FuncValue { positional, named, .. } => (forall|k: int|
            0 <= k < positional@.len() ==> arg_wf(#[trigger] positional@[k], bound)) && (forall|k: int|
            0 <= k < named@.len() ==> arg_wf(#[trigger] named@[k].1, bound)),
    }
}

/// An instruction may only call entries registered before `bound`, and
/// every selector keeps its default variant last.
pub open spec fn instr_wf(ins: Instr, bound: int) -> bool
    decreases ins,
{
    match ins {
        Instr::Text(_) => true,
        Instr::VarText(_) => true,
        Instr::CallMessage(i) => i < bound,
        Instr::CallTerm { target, args } => target < bound && forall|k: int|
            0 <= k < args@.len() ==> arg_wf(#[trigger] args@[k].1, bound),
        Instr::FunctionCall { positional, named, .. } => (forall|k: int|
            0 <= k < positional@.len() ==> arg_wf(#[trigger] positional@[k], bound)) && (forall|k: int|
            0 <= k < named@.len() ==> arg_wf(#[trigger] named@[k].1, bound)),
        Instr::Select { variants, .. } => variants@.len() >= 1 && (variants@.last().key
            is Fallback) && forall|k: int|
            0 <= k < variants@.len() ==> body_wf(#[trigger] variants@[k].body@, bound),
    }
}

pub open spec fn body_wf(b: Seq<Instr>, bound: int) -> bool
    decreases b,
{
    forall|k: int| 0 <= k < b.len() ==> instr_wf(#[trigger] b[k], bound)
}

/// Structural size of a call argument, for termination measures.
pub open spec fn arg_size(a: ArgValue) -> nat
    decreases a,
{
    match a {
        ArgValue::LitText(_) => 1,
        ArgValue::LitNumber(_) => 1,
        ArgValue::VarArg(_) => 1,
        ArgValue::MsgValue(_) => 1,
        ArgValue::TermValue { args, .. } => 1 + named_args_size(args@),
        ArgValue::FuncValue { positional, named, .. } => 1 + pos_args_size(positional@)
            + named_args_size(named@),
    }
}

pub open spec fn named_args_size(s: Seq<(String, ArgValue)>) -> nat
    decreases s,
{
    if s.len() == 0 {
        0
    } else {
        named_args_size(s.drop_last()) + arg_size(s.last().1)
    }
}

pub open spec fn pos_args_size(s: Seq<ArgValue>) -> nat
    decreases s,
{
    if s.len() == 0 {
        0
    } else {
        pos_args_size(s.drop_last()) + arg_size(s.last())
    }
}

/// Structural size of an instruction, for termination measures.
pub open spec fn instr_size(ins: Instr) -> nat
    decreases ins,
{
    match ins {
        Instr::Text(_) => 1,
        Instr::VarText(_) => 1,
        Instr::CallMessage(_) => 1,
        Instr::CallTerm { args, .. } => 1 + named_args_size(args@),
        Instr::FunctionCall { positional, named, .. } => 1 + pos_args_size(positional@)
            + named_args_size(named@),
        Instr::Select { variants, .. } => 1 + variants_size(variants@),
    }
}

pub open spec fn variants_size(s: Seq<CompiledVariant>) -> nat
    decreases s,
{
    if s.len() == 0 {
        0
    } else {
        variants_size(s.drop_last()) + 1 + body_size(s.last().body@)
    }
}

pub open spec fn body_size(b: Seq<Instr>) -> nat
    decreases b,
{
    if b.len() == 0 {
        0
    } else {
        body_size(b.drop_last()) + instr_size(b.last())
    }
}

/// Each element's size is bounded by the whole body's size.
pub proof fn lemma_body_size_elem(b: Seq<Instr>, k: int)
    requires
        0 <= k < b.len(),
    ensures
        instr_size(b[k]) <= body_size(b),
    decreases b.len(),
{
    if k == b.len() - 1 {
        assert(b.last() == b[k]);
    } else {
        assert(b.drop_last()[k] == b[k]);
        lemma_body_size_elem(b.drop_last(), k);
    }
}

pub proof fn lemma_variants_size_elem(s: Seq<CompiledVariant>, k: int)
    requires
        0 <= k < s.len(),
    ensures
        body_size(s[k].body@) < variants_size(s),
    decreases s.len(),
{
    if k == s.len() - 1 {
        assert(s.last() == s[k]);
    } else {
        assert(s.drop_last()[k] == s[k]);
        lemma_variants_size_elem(s.drop_last(), k);
    }
}

pub proof fn lemma_named_args_size_elem(s: Seq<(String, ArgValue)>, k: int)
    requires
        0 <= k < s.len(),
    ensures
        arg_size(s[k].1) <= named_args_size(s),
    decreases s.len(),
{
    if k == s.len() - 1 {
        assert(s.last() == s[k]);
    } else {
        assert(s.drop_last()[k] == s[k]);
        lemma_named_args_size_elem(s.drop_last(), k);
    }
}

pub proof fn lemma_pos_args_size_elem(s: Seq<ArgValue>, k: int)
    requires
        0 <= k < s.len(),
    ensures
        arg_size(s[k]) <= pos_args_size(s),
    decreases s.len(),
{
    if k == s.len() - 1 {
        assert(s.last() == s[k]);
    } else {
        assert(s.drop_last()[k] == s[k]);
        lemma_pos_args_size_elem(s.drop_last(), k);
    }
}


/// Every instruction and argument has positive size.
pub proof fn lemma_instr_size_pos(ins: Instr)
    ensures
        instr_size(ins) >= 1,
{
    match ins {
        Instr::Text(_) => {},
        Instr::VarText(_) => {},
        Instr::CallMessage(_) => {},
        Instr::CallTerm { .. } => {},
        Instr::FunctionCall { .. } => {},
        Instr::Select { .. } => {},
    }
}

pub proof fn lemma_arg_size_pos(a: ArgValue)
    ensures
        arg_size(a) >= 1,
{
    match a {
        ArgValue::LitText(_) => {},
        ArgValue::LitNumber(_) => {},
        ArgValue::VarArg(_) => {},
        ArgValue::MsgValue(_) => {},
        ArgValue::TermValue { .. } => {},
        ArgValue::FuncValue { .. } => {},
    }
}

/// A body's size splits at its head.
pub proof fn lemma_body_size_head(b: Seq<Instr>)
    requires
        b.len() >= 1,
    ensures
        body_size(b) == instr_size(b[0]) + body_size(b.subrange(1, b.len() as int)),
    decreases b.len(),
{
    if b.len() == 1 {
        assert(b.drop_last() =~= Seq::<Instr>::empty());
        assert(b.subrange(1, 1) =~= Seq::<Instr>::empty());
        assert(b.last() == b[0]);
    } else {
        let dl = b.drop_last();
        lemma_body_size_head(dl);
        assert(dl[0] == b[0]);
        assert(b.subrange(1, b.len() as int).drop_last() =~= dl.subrange(1, dl.len() as int));
        assert(b.subrange(1, b.len() as int).last() == b.last());
    }
}

/// A named-argument list's size splits at its head.
pub proof fn lemma_named_args_size_head(s: Seq<(String, ArgValue)>)
    requires
        s.len() >= 1,
    ensures
        named_args_size(s) == arg_size(s[0].1) + named_args_size(s.subrange(1, s.len() as int)),
    decreases s.len(),
{
    if s.len() == 1 {
        assert(s.drop_last() =~= Seq::<(String, ArgValue)>::empty());
        assert(s.subrange(1, 1) =~= Seq::<(String, ArgValue)>::empty());
        assert(s.last() == s[0]);
    } else {
        let dl = s.drop_last();
        lemma_named_args_size_head(dl);
        assert(dl[0] == s[0]);
        assert(s.subrange(1, s.len() as int).drop_last() =~= dl.subrange(1, dl.len() as int));
        assert(s.subrange(1, s.len() as int).last() == s.last());
    }
}

/// A positional-argument list's size splits at its head.
pub proof fn lemma_pos_args_size_head(s: Seq<ArgValue>)
    requires
        s.len() >= 1,
    ensures
        pos_args_size(s) == arg_size(s[0]) + pos_args_size(s.subrange(1, s.len() as int)),
    decreases s.len(),
{
    if s.len() == 1 {
        assert(s.drop_last() =~= Seq::<ArgValue>::empty());
        assert(s.subrange(1, 1) =~= Seq::<ArgValue>::empty());
        assert(s.last() == s[0]);
    } else {
        let dl = s.drop_last();
        lemma_pos_args_size_head(dl);
        assert(dl[0] == s[0]);
        assert(s.subrange(1, s.len() as int).drop_last() =~= dl.subrange(1, dl.len() as int));
        assert(s.subrange(1, s.len() as int).last() == s.last());
    }
}

/// One finished message, term, or attribute of a language's registry: its
/// path, its binding name, whether it is private, its variables in first
/// occurrence order, the same names sorted, and its lowered body.
#[derive(Debug)]
pub struct Callable {
    pub id: FluentId,
    pub fn_ident: String,
    pub private: bool,
    pub vars: Vec<FluentVariable>,
    pub sorted_var_names: Vec<String>,
    pub body: Vec<Instr>,
}

/// The variable source names of a callable, in declaration order.
pub open spec fn var_names_of(vars: Seq<FluentVariable>) -> Seq<Seq<char>> {
    vars.map_values(|v: FluentVariable| v.var_name@)
}

/// The variables are unique by source name, and the sorted name list is
/// the same set in ascending order.
pub open spec fn callable_vars_wf(c: Callable) -> bool {
    &&& forall|i: int, j: int|
        0 <= i < j < c.vars@.len() ==> #[trigger] c.vars@[i].var_name@ != #[trigger] c.vars@[j].var_name@
    &&& strictly_sorted(views_of(c.sorted_var_names@))
    &&& views_of(c.sorted_var_names@).to_set() == var_names_of(c.vars@).to_set()
}

/// A registry is well formed when every entry's body only calls entries
/// registered strictly before it, entry ids are unique, and every entry's
/// variable lists are coherent.
pub open spec fn reg_wf(entries: Seq<Callable>) -> bool {
    &&& forall|i: int| 0 <= i < entries.len() ==> body_wf(#[trigger] entries[i].body@, i)
    &&& forall|i: int| 0 <= i < entries.len() ==> callable_vars_wf(#[trigger] entries[i])
    &&& forall|i: int, j: int|
        0 <= i < j < entries.len() ==> #[trigger] entries[i].id@ != #[trigger] entries[j].id@
}

/// The index of the entry with this id, scanning from the front.
pub open spec fn spec_find_entry(entries: Seq<Callable>, id: Seq<char>) -> Option<int> {
    if exists|i: int| 0 <= i < entries.len() && #[trigger] entries[i].id@ == id {
        Some(choose|i: int| 0 <= i < entries.len() && #[trigger] entries[i].id@ == id)
    } else {
        None
    }
}

/// One language's registry under construction: entries are appended as
/// they finish compiling and never change afterwards.
#[derive(Debug)]
pub struct LanguageBuilder {
    pub language_id: String,
    pub prefix: String,
    pub entries: Vec<Callable>,
}

impl LanguageBuilder {
    pub open spec fn wf(&self) -> bool {
        reg_wf(self.entries@)
    }

    pub fn new(language_id: &str) -> (r: LanguageBuilder)
        ensures
            r.language_id@ == language_id@,
            r.prefix@ == snake_of(language_id@),
            r.entries@.len() == 0,
            r.wf(),
    {
        LanguageBuilder {
            language_id: language_id.to_owned(),
            prefix: crate::casing::to_snake_case(language_id),
            entries: Vec::new(),
        }
    }

    /// Finds the already-registered entry with this id.
    pub fn find_entry(&self, id: &FluentId) -> (r: Option<usize>)
        ensures
            r matches Some(i) ==> i < self.entries@.len() && self.entries@[i as int].id@ == id@,
            r is None ==> forall|i: int|
                0 <= i < self.entries@.len() ==> #[trigger] self.entries@[i].id@ != id@,
    {
        let n = self.entries.len();
        let mut i: usize = 0;
        while i < n
            invariant
                i <= n,
                n == self.entries@.len(),
                forall|j: int| 0 <= j < i ==> #[trigger] self.entries@[j].id@ != id@,
            decreases n - i,
        {
            if self.entries[i].id.matches(id) {
                return Some(i);
            }
            i = i + 1;
        }
        None
    }
}

/// The text between the id and the variable names of a public key.
pub open spec fn key_eq_sep() -> Seq<char> {
    seq!['=']
}

/// The text between two variable names of a public key.
pub open spec fn key_comma_sep() -> Seq<char> {
    seq![',']
}

/// The sorted variable names joined with commas.
pub open spec fn join_names(names: Seq<Seq<char>>) -> Seq<char>
    decreases names.len(),
{
    if names.len() == 0 {
        Seq::empty()
    } else if names.len() == 1 {
        names[0]
    } else {
        join_names(names.drop_last()) + key_comma_sep() + names.last()
    }
}

/// The public key of a callable: its id, and, when it takes variables,
/// `=` and the sorted variable names joined with commas. Two languages'
/// entries with the same key are the same public entry point.
pub open spec fn spec_public_id(c: Callable) -> Seq<char> {
    if c.sorted_var_names@.len() == 0 {
        c.id@
    } else {
        c.id@ + key_eq_sep() + join_names(views_of(c.sorted_var_names@))
    }
}

impl Callable {
    pub fn has_vars(&self) -> (r: bool)
        ensures
            r == (self.vars@.len() > 0),
    {
        self.vars.len() > 0
    }

    /// Builds the public key text of this callable.
    pub fn public_id(&self) -> (r: PublicFluentId)
        ensures
            r@ == spec_public_id(*self),
    {
        if self.sorted_var_names.len() == 0 {
            PublicFluentId::new(self.id.as_str().to_owned())
        } else {
            let mut key = self.id.as_str().to_owned();
            key.append("=");
            proof {
                reveal_strlit("=");
                assert("="@ =~= key_eq_sep());
            }
            let n = self.sorted_var_names.len();
            let mut i: usize = 0;
            while i < n
                invariant
                    0 < n,
                    i <= n,
                    n == self.sorted_var_names@.len(),
                    i > 0 ==> key@ == self.id@ + key_eq_sep() + join_names(
                        views_of(self.sorted_var_names@).take(i as int),
                    ),
                    i == 0 ==> key@ == self.id@ + key_eq_sep(),
                decreases n - i,
            {
                if i > 0 {
                    key.append(",");
                    proof {
                        reveal_strlit(",");
                        assert(","@ =~= key_comma_sep());
                    }
                }
                key.append(self.sorted_var_names[i].as_str());
                proof {
                    let vs = views_of(self.sorted_var_names@);
                    assert(vs.take(i as int + 1).drop_last() =~= vs.take(i as int));
                    assert(vs.take(i as int + 1).last() == vs[i as int]);
                    if i == 0 {
                        assert(join_names(vs.take(1)) == vs[0]);
                        assert(key@ =~= self.id@ + key_eq_sep() + join_names(vs.take(1)));
                    } else {
                        assert(key@ =~= self.id@ + key_eq_sep() + join_names(vs.take(i as int + 1)));
                    }
                }
                i = i + 1;
            }
            proof {
                assert(views_of(self.sorted_var_names@).take(n as int) =~= views_of(
                    self.sorted_var_names@,
                ));
            }
            PublicFluentId::new(key)
        }
    }
}

} // verus!
