use vstd::prelude::*;

use crate::ast;
use crate::compile::{entry_meta, plan_fresh, resource_all_text, resource_plan};
use crate::error::{Error, MessageValidationErrorEntry};
use crate::ident::PublicFluentId;
use crate::interp::{format_entry, spec_format_entry};
use crate::ir::{spec_public_id, Callable, FluentVariable, LanguageBuilder};
use crate::function::named_models;
use crate::order::{insert_sorted, strictly_sorted, views_of};
use crate::strutil::str_eq;
use crate::value::Value;
use crate::Message;

verus! {

/// Whether some public (non-private) entry of this language carries the
/// given public key.
pub open spec fn lang_has_key(lb: LanguageBuilder, key: Seq<char>) -> bool {
    exists|i: int|
        0 <= i < lb.entries@.len() && !(#[trigger] lb.entries@[i]).private && spec_public_id(
            lb.entries@[i],
        ) == key
}

/// Completeness across languages: every public key of any language is a
/// public key of every language, so the public key sets are pairwise
/// equal.
pub open spec fn keys_uniform(langs: Seq<LanguageBuilder>) -> bool {
    forall|i: int, j: int, k: int|
        0 <= i < langs.len() && 0 <= j < langs.len() && 0 <= k < langs[i].entries@.len() && !(
        #[trigger] langs[i].entries@[k]).private ==> lang_has_key(
            #[trigger] langs[j],
            spec_public_id(langs[i].entries@[k]),
        )
}

/// The index of the first registry with this tag, or -1 when none has it.
pub open spec fn first_with_tag(langs: Seq<LanguageBuilder>, tag: Seq<char>) -> int
    decreases langs.len(),
{
    if langs.len() == 0 {
        -1
    } else if langs[0].language_id@ == tag {
        0
    } else {
        let r = first_with_tag(langs.subrange(1, langs.len() as int), tag);
        if r < 0 {
            -1
        } else {
            1 + r
        }
    }
}

/// Where a scan for a tag stops is where `first_with_tag` points.
pub proof fn lemma_first_with_tag_at(langs: Seq<LanguageBuilder>, tag: Seq<char>, i: int)
    requires
        0 <= i <= langs.len(),
        forall|j: int| 0 <= j < i ==> (#[trigger] langs[j]).language_id@ != tag,
        i == langs.len() || langs[i].language_id@ == tag,
    ensures
        first_with_tag(langs, tag) == if i == langs.len() {
            -1int
        } else {
            i
        },
    decreases langs.len(),
{
    if langs.len() == 0 {
    } else if i == 0 {
    } else {
        let t = langs.subrange(1, langs.len() as int);
        assert(forall|j: int| 0 <= j < i - 1 ==> t[j] == langs[j + 1]);
        assert(i - 1 == t.len() || t[i - 1] == langs[i]);
        lemma_first_with_tag_at(t, tag, i - 1);
    }
}

/// The registry that serves a requested tag: the exact match when one
/// exists, else the default language's registry, else none (negative).
pub open spec fn spec_pick_language(langs: Seq<LanguageBuilder>, tag: Seq<char>, dflt: Seq<char>) -> int {
    if first_with_tag(langs, tag) >= 0 {
        first_with_tag(langs, tag)
    } else {
        first_with_tag(langs, dflt)
    }
}

/// Whether the bundle's anchor language is among the compiled languages:
/// the configured default, or, unset, the first language added.
pub open spec fn spec_default_tag(b: MessageBundleBuilder) -> Seq<char> {
    match b.default_language {
        Some(d) => d@,
        None => if b.languages@.len() > 0 {
            b.languages@[0].language_id@
        } else {
            Seq::empty()
        },
    }
}

pub open spec fn spec_default_compiled(b: MessageBundleBuilder) -> bool {
    b.languages@.len() > 0 && exists|i: int|
        0 <= i < b.languages@.len() && (#[trigger] b.languages@[i]).language_id@
            == spec_default_tag(b)
}

/// The tags of the languages that define a key, in registration order.
pub open spec fn defined_tags(langs: Seq<LanguageBuilder>, key: Seq<char>) -> Seq<Seq<char>>
    decreases langs,
{
    if langs.len() == 0 {
        Seq::empty()
    } else {
        defined_tags(langs.drop_last(), key) + if lang_has_key(langs.last(), key) {
            seq![langs.last().language_id@]
        } else {
            Seq::empty()
        }
    }
}

/// The tags of the languages that do not define a key, in order.
pub open spec fn undefined_tags(langs: Seq<LanguageBuilder>, key: Seq<char>) -> Seq<Seq<char>>
    decreases langs,
{
    if langs.len() == 0 {
        Seq::empty()
    } else {
        undefined_tags(langs.drop_last(), key) + if lang_has_key(langs.last(), key) {
            Seq::empty()
        } else {
            seq![langs.last().language_id@]
        }
    }
}

/// A language that misses the key puts its tag among the undefined ones.
pub proof fn lemma_undefined_tags_nonempty(langs: Seq<LanguageBuilder>, key: Seq<char>, lj: int)
    requires
        0 <= lj < langs.len(),
        !lang_has_key(langs[lj], key),
    ensures
        undefined_tags(langs, key).len() > 0,
    decreases langs.len(),
{
    if lj < langs.len() - 1 {
        assert(langs.drop_last()[lj] == langs[lj]);
        lemma_undefined_tags_nonempty(langs.drop_last(), key, lj);
    }
}

/// The public key list of one registry, in order.
pub open spec fn lang_pub_keys(entries: Seq<Callable>) -> Seq<Seq<char>>
    decreases entries,
{
    if entries.len() == 0 {
        Seq::empty()
    } else {
        lang_pub_keys(entries.drop_last()) + if entries.last().private {
            Seq::empty()
        } else {
            seq![spec_public_id(entries.last())]
        }
    }
}

/// The public key occurrence list over all languages, in order.
pub open spec fn all_pub_keys(langs: Seq<LanguageBuilder>) -> Seq<Seq<char>>
    decreases langs,
{
    if langs.len() == 0 {
        Seq::empty()
    } else {
        all_pub_keys(langs.drop_last()) + lang_pub_keys(langs.last().entries@)
    }
}

/// Every public entry's key occurs in its registry's key list.
pub proof fn lemma_lang_pub_keys_elem(entries: Seq<Callable>, e: int)
    requires
        0 <= e < entries.len(),
        !entries[e].private,
    ensures
        lang_pub_keys(entries).contains(spec_public_id(entries[e])),
    decreases entries.len(),
{
    if e == entries.len() - 1 {
        assert(entries.last() == entries[e]);
        let l = lang_pub_keys(entries);
        assert(l.last() == spec_public_id(entries[e]));
    } else {
        assert(entries.drop_last()[e] == entries[e]);
        lemma_lang_pub_keys_elem(entries.drop_last(), e);
        let sub = lang_pub_keys(entries.drop_last());
        let k = choose|k: int| 0 <= k < sub.len() && sub[k] == spec_public_id(entries[e]);
        assert(lang_pub_keys(entries)[k] == spec_public_id(entries[e]));
    }
}

/// Every public entry's key occurs in the combined key list.
pub proof fn lemma_all_pub_keys_elem(langs: Seq<LanguageBuilder>, li: int, e: int)
    requires
        0 <= li < langs.len(),
        0 <= e < langs[li].entries@.len(),
        !langs[li].entries@[e].private,
    ensures
        all_pub_keys(langs).contains(spec_public_id(langs[li].entries@[e])),
    decreases langs.len(),
{
    let key = spec_public_id(langs[li].entries@[e]);
    if li == langs.len() - 1 {
        assert(langs.last() == langs[li]);
        lemma_lang_pub_keys_elem(langs[li].entries@, e);
        let sub = lang_pub_keys(langs[li].entries@);
        let k = choose|k: int| 0 <= k < sub.len() && sub[k] == key;
        assert(all_pub_keys(langs)[all_pub_keys(langs.drop_last()).len() + k] == key);
    } else {
        assert(langs.drop_last()[li] == langs[li]);
        lemma_all_pub_keys_elem(langs.drop_last(), li, e);
        let sub = all_pub_keys(langs.drop_last());
        let k = choose|k: int| 0 <= k < sub.len() && sub[k] == key;
        assert(all_pub_keys(langs)[k] == key);
    }
}

/// How many public (non-private) entries a registry holds.
pub open spec fn pub_count(entries: Seq<Callable>) -> nat
    decreases entries,
{
    if entries.len() == 0 {
        0
    } else {
        pub_count(entries.drop_last()) + if entries.last().private {
            0nat
        } else {
            1nat
        }
    }
}

/// One public entry point of the assembled bundle: its public key, its
/// emitted name, the canonical variable list (the default language's),
/// and, for each language, the index of the implementing callable.
#[derive(Debug)]
pub struct DispatchEntry {
    pub public_id: PublicFluentId,
    pub fn_name: String,
    pub vars: Vec<FluentVariable>,
    pub impls: Vec<(String, usize)>,
}

/// The validated public face of a bundle: the language registries, the
/// closed set of supported tags, the default tag, and one dispatch entry
/// point per public key.
#[derive(Debug)]
pub struct MessageBundleApi {
    pub bundle_name: String,
    pub default_language: String,
    pub languages: Vec<LanguageBuilder>,
    pub entry_points: Vec<DispatchEntry>,
}

/// Builds one bundle: registers parsed resources per language, validates
/// cross-language completeness once at the end, and assembles the public
/// dispatch description.
#[derive(Debug)]
pub struct MessageBundleBuilder {
    pub bundle_name: String,
    pub default_language: Option<String>,
    pub languages: Vec<LanguageBuilder>,
}

impl MessageBundleBuilder {
    pub open spec fn wf(&self) -> bool {
        &&& forall|i: int| 0 <= i < self.languages@.len() ==> (#[trigger] self.languages@[i]).wf()
        &&& forall|i: int, j: int|
            0 <= i < j < self.languages@.len() ==> (#[trigger] self.languages@[i]).language_id@ != (
            #[trigger] self.languages@[j]).language_id@
    }

    pub fn new(name: &str) -> (r: MessageBundleBuilder)
        ensures
            r.bundle_name@ == name@,
            r.default_language is None,
            r.languages@.len() == 0,
            r.wf(),
    {
        MessageBundleBuilder {
            bundle_name: name.to_owned(),
            default_language: None,
            languages: Vec::new(),
        }
    }

    pub fn set_name(&mut self, name: &str)
        ensures
            final(self).bundle_name@ == name@,
            final(self).default_language == old(self).default_language,
            final(self).languages == old(self).languages,
    {
        self.bundle_name = name.to_owned();
    }

    /// Declares which language's signatures anchor the public API.
    pub fn with_default_language(&mut self, language_id: &str)
        ensures
            final(self).bundle_name == old(self).bundle_name,
            final(self).languages == old(self).languages,
            final(self).default_language matches Some(l) && l@ == language_id@,
    {
        self.default_language = Some(language_id.to_owned());
    }

    /// The index of the language registry with this tag.
    fn find_language(&self, lang_id: &str) -> (r: Option<usize>)
        ensures
            r matches Some(i) ==> i < self.languages@.len() && self.languages@[i as int].language_id@ == lang_id@
                && i == first_with_tag(self.languages@, lang_id@),
            r is None ==> (forall|i: int|
                0 <= i < self.languages@.len() ==> (#[trigger] self.languages@[i]).language_id@
                    != lang_id@) && first_with_tag(self.languages@, lang_id@) < 0,
    {
        let n = self.languages.len();
        let mut i: usize = 0;
        while i < n
            invariant
                i <= n,
                n == self.languages@.len(),
                forall|j: int|
                    0 <= j < i ==> (#[trigger] self.languages@[j]).language_id@ != lang_id@,
            decreases n - i,
        {
            if str_eq(self.languages[i].language_id.as_str(), lang_id) {
                proof {
                    lemma_first_with_tag_at(self.languages@, lang_id@, i as int);
                }
                return Some(i);
            }
            i = i + 1;
        }
        proof {
            lemma_first_with_tag_at(self.languages@, lang_id@, n as int);
        }
        None
    }

    /// Compiles one parsed resource into the named language's registry,
    /// creating the registry on its first resource. A failure is terminal
    /// for the whole build.
    #[verifier::loop_isolation(false)]
    pub fn add_resource(&mut self, lang_id: &str, res: &ast::Resource) -> (r: Result<(), Error>)
        requires
            old(self).wf(),
        ensures
            final(self).wf(),
            final(self).bundle_name == old(self).bundle_name,
            final(self).default_language == old(self).default_language,
            ({
                let li = first_with_tag(old(self).languages@, lang_id@);
                let existing = if li >= 0 {
                    entry_meta(old(self).languages@[li].entries@)
                } else {
                    Seq::empty()
                };
                (resource_all_text(res.body@) && plan_fresh(existing, resource_plan(res.body@)))
                    ==> r is Ok
            }),
            (resource_all_text(res.body@) && r is Err) ==> (r matches Err(e2) && e2
                is DuplicateEntryId),
    {
        match self.find_language(lang_id) {
            Some(i) => {
                let ghost oldlangs = self.languages@;
                let lb = &mut self.languages[i];
                let res1 = lb.add_resource(res);
                proof {
                    assert forall|x: int, y: int|
                        0 <= x < y < self.languages@.len() implies (
                    #[trigger] self.languages@[x]).language_id@ != (
                    #[trigger] self.languages@[y]).language_id@ by {
                        assert(self.languages@[x].language_id@ == oldlangs[x].language_id@);
                        assert(self.languages@[y].language_id@ == oldlangs[y].language_id@);
                    }
                }
                res1
            },
            None => {
                let mut lb = LanguageBuilder::new(lang_id);
                let res1 = lb.add_resource(res);
                match res1 {
                    Ok(()) => {
                        let ghost oldlangs = self.languages@;
                        self.languages.push(lb);
                        proof {
                            assert forall|x: int, y: int|
                                0 <= x < y < self.languages@.len() implies (
                            #[trigger] self.languages@[x]).language_id@ != (
                            #[trigger] self.languages@[y]).language_id@ by {
                                if y < oldlangs.len() {
                                    assert(self.languages@[x] == oldlangs[x]);
                                    assert(self.languages@[y] == oldlangs[y]);
                                } else {
                                    assert(self.languages@[x] == oldlangs[x]);
                                    assert(self.languages@[y].language_id@ == lang_id@);
                                }
                            }
                        }
                        Ok(())
                    },
                    Err(e) => Err(e),
                }
            },
        }
    }

    /// Whether this language defines the given public key.
    fn language_has_key(lb: &LanguageBuilder, key: &PublicFluentId) -> (r: bool)
        ensures
            r == lang_has_key(*lb, key@),
    {
        let n = lb.entries.len();
        let mut i: usize = 0;
        while i < n
            invariant
                i <= n,
                n == lb.entries@.len(),
                forall|j: int|
                    0 <= j < i ==> !(!(#[trigger] lb.entries@[j]).private && spec_public_id(
                        lb.entries@[j],
                    ) == key@),
            decreases n - i,
        {
            if !lb.entries[i].private {
                let k = lb.entries[i].public_id();
                if k.matches(key) {
                    return true;
                }
            }
            i = i + 1;
        }
        false
    }

    /// Whether every language's public keys appear in every language.
    fn check_uniform(&self) -> (r: bool)
        ensures
            r == keys_uniform(self.languages@),
    {
        let n = self.languages.len();
        let mut i: usize = 0;
        while i < n
            invariant
                i <= n,
                n == self.languages@.len(),
                forall|x: int, y: int, k: int|
                    0 <= x < i && 0 <= y < n && 0 <= k < self.languages@[x].entries@.len() && !(
                    #[trigger] self.languages@[x].entries@[k]).private ==> lang_has_key(
                        #[trigger] self.languages@[y],
                        spec_public_id(self.languages@[x].entries@[k]),
                    ),
            decreases n - i,
        {
            let m = self.languages[i].entries.len();
            let mut k: usize = 0;
            while k < m
                invariant
                    i < n,
                    k <= m,
                    n == self.languages@.len(),
                    m == self.languages@[i as int].entries@.len(),
                    forall|x: int, y: int, kk: int|
                        0 <= x < i && 0 <= y < n && 0 <= kk < self.languages@[x].entries@.len()
                            && !(#[trigger] self.languages@[x].entries@[kk]).private
                            ==> lang_has_key(
                            #[trigger] self.languages@[y],
                            spec_public_id(self.languages@[x].entries@[kk]),
                        ),
                    forall|y: int, kk: int|
                        0 <= y < n && 0 <= kk < k && !(
                        #[trigger] self.languages@[i as int].entries@[kk]).private
                            ==> lang_has_key(
                            #[trigger] self.languages@[y],
                            spec_public_id(self.languages@[i as int].entries@[kk]),
                        ),
                decreases m - k,
            {
                if !self.languages[i].entries[k].private {
                    let key = self.languages[i].entries[k].public_id();
                    let mut j: usize = 0;
                    while j < n
                        invariant
                            i < n,
                            k < m,
                            j <= n,
                            n == self.languages@.len(),
                            m == self.languages@[i as int].entries@.len(),
                            key@ == spec_public_id(self.languages@[i as int].entries@[k as int]),
                            !self.languages@[i as int].entries@[k as int].private,
                            forall|y: int|
                                0 <= y < j ==> lang_has_key(#[trigger] self.languages@[y], key@),
                        decreases n - j,
                    {
                        if !Self::language_has_key(&self.languages[j], &key) {
                            return false;
                        }
                        j = j + 1;
                    }
                }
                k = k + 1;
            }
            i = i + 1;
        }
        true
    }

    /// The tag the public signatures anchor on: the configured default,
    /// or the first language added.
    fn default_language_id(&self) -> (r: Option<String>)
        requires
            self.languages@.len() > 0 || self.default_language is Some,
        ensures
            match self.default_language {
                Some(d) => r matches Some(t) && t@ == d@,
                None => r matches Some(t) && t@ == self.languages@[0].language_id@,
            },
    {
        match &self.default_language {
            Some(d) => Some(d.clone()),
            None => {
                if self.languages.len() > 0 {
                    Some(self.languages[0].language_id.clone())
                } else {
                    None
                }
            },
        }
    }

    /// Collects, for one public key, the languages that define it and the
    /// languages that do not.
    #[verifier::loop_isolation(false)]
    fn split_languages(&self, key: &PublicFluentId) -> (r: (Vec<String>, Vec<String>))
        ensures
            views_of(r.0@) == defined_tags(self.languages@, key@),
            views_of(r.1@) == undefined_tags(self.languages@, key@),
    {
        let n = self.languages.len();
        let mut defined: Vec<String> = Vec::new();
        let mut undefined: Vec<String> = Vec::new();
        let mut j: usize = 0;
        proof {
            assert(self.languages@.subrange(0, 0) =~= Seq::<LanguageBuilder>::empty());
            assert(views_of(defined@) =~= defined_tags(self.languages@.subrange(0, 0), key@));
            assert(views_of(undefined@) =~= undefined_tags(self.languages@.subrange(0, 0), key@));
        }
        while j < n
            invariant
                j <= n,
                n == self.languages@.len(),
                views_of(defined@) == defined_tags(self.languages@.subrange(0, j as int), key@),
                views_of(undefined@) == undefined_tags(
                    self.languages@.subrange(0, j as int),
                    key@,
                ),
            decreases n - j,
        {
            proof {
                let pre1 = self.languages@.subrange(0, j as int + 1);
                assert(pre1.drop_last() =~= self.languages@.subrange(0, j as int));
                assert(pre1.last() == self.languages@[j as int]);
            }
            if Self::language_has_key(&self.languages[j], key) {
                defined.push(self.languages[j].language_id.clone());
                proof {
                    assert(views_of(defined@) =~= defined_tags(
                        self.languages@.subrange(0, j as int + 1),
                        key@,
                    ));
                }
            } else {
                undefined.push(self.languages[j].language_id.clone());
                proof {
                    assert(views_of(undefined@) =~= undefined_tags(
                        self.languages@.subrange(0, j as int + 1),
                        key@,
                    ));
                }
            }
            j = j + 1;
        }
        proof {
            assert(self.languages@.subrange(0, n as int) =~= self.languages@);
        }
        (defined, undefined)
    }

    /// Collects every public key of every language, with repeats.
    #[verifier::loop_isolation(false)]
    fn collect_pub_keys(&self) -> (r: Vec<String>)
        ensures
            views_of(r@) == all_pub_keys(self.languages@),
    {
        let n = self.languages.len();
        let mut out: Vec<String> = Vec::new();
        let mut i: usize = 0;
        proof {
            assert(self.languages@.subrange(0, 0) =~= Seq::<LanguageBuilder>::empty());
            assert(views_of(out@) =~= all_pub_keys(self.languages@.subrange(0, 0)));
        }
        while i < n
            invariant
                i <= n,
                n == self.languages@.len(),
                views_of(out@) == all_pub_keys(self.languages@.subrange(0, i as int)),
            decreases n - i,
        {
            proof {
                let pre1 = self.languages@.subrange(0, i as int + 1);
                assert(pre1.drop_last() =~= self.languages@.subrange(0, i as int));
                assert(pre1.last() == self.languages@[i as int]);
            }
            let m = self.languages[i].entries.len();
            let mut k: usize = 0;
            proof {
                assert(self.languages@[i as int].entries@.subrange(0, 0) =~= Seq::<
                    Callable,
                >::empty());
                assert(views_of(out@) =~= all_pub_keys(self.languages@.subrange(0, i as int))
                    + lang_pub_keys(self.languages@[i as int].entries@.subrange(0, 0)));
            }
            while k < m
                invariant
                    i < n,
                    k <= m,
                    n == self.languages@.len(),
                    m == self.languages@[i as int].entries@.len(),
                    views_of(out@) == all_pub_keys(self.languages@.subrange(0, i as int))
                        + lang_pub_keys(self.languages@[i as int].entries@.subrange(0, k as int)),
                decreases m - k,
            {
                proof {
                    let epre1 = self.languages@[i as int].entries@.subrange(0, k as int + 1);
                    assert(epre1.drop_last() =~= self.languages@[i as int].entries@.subrange(
                        0,
                        k as int,
                    ));
                    assert(epre1.last() == self.languages@[i as int].entries@[k as int]);
                }
                let ghost oldout = out@;
                if !self.languages[i].entries[k].private {
                    let key = self.languages[i].entries[k].public_id();
                    out.push(key.as_str().to_owned());
                    proof {
                        assert(views_of(out@) =~= views_of(oldout).push(
                            spec_public_id(self.languages@[i as int].entries@[k as int]),
                        ));
                    }
                }
                proof {
                    assert(views_of(out@) =~= all_pub_keys(self.languages@.subrange(0, i as int))
                        + lang_pub_keys(
                        self.languages@[i as int].entries@.subrange(0, k as int + 1),
                    ));
                }
                k = k + 1;
            }
            proof {
                assert(self.languages@[i as int].entries@.subrange(0, m as int)
                    =~= self.languages@[i as int].entries@);
                assert(views_of(out@) =~= all_pub_keys(self.languages@.subrange(0, i as int + 1)));
            }
            i = i + 1;
        }
        proof {
            assert(self.languages@.subrange(0, n as int) =~= self.languages@);
        }
        out
    }

    /// Enumerates, per public key that is not defined everywhere, exactly
    /// the languages that define it and the languages that do not; each
    /// such key is reported once.
    #[verifier::loop_isolation(false)]
    fn validation_entries(&self) -> (r: Vec<MessageValidationErrorEntry>)
        ensures
            forall|x: int|
                0 <= x < r@.len() ==> {
                    let key = (#[trigger] r@[x]).message_id@;
                    &&& views_of(r@[x].defined_in_languages@) == defined_tags(
                        self.languages@,
                        key,
                    )
                    &&& views_of(r@[x].undefined_in_languages@) == undefined_tags(
                        self.languages@,
                        key,
                    )
                    &&& undefined_tags(self.languages@, key).len() > 0
                },
            forall|x: int, y: int|
                0 <= x < y < r@.len() ==> (#[trigger] r@[x]).message_id@ != (
                #[trigger] r@[y]).message_id@,
            forall|li: int, e: int, lj: int|
                (0 <= li < self.languages@.len() && 0 <= e < self.languages@[li].entries@.len()
                    && !(#[trigger] self.languages@[li].entries@[e]).private && 0 <= lj
                    < self.languages@.len() && !lang_has_key(
                    #[trigger] self.languages@[lj],
                    spec_public_id(self.languages@[li].entries@[e]),
                )) ==> exists|x: int|
                    0 <= x < r@.len() && (#[trigger] r@[x]).message_id@ == spec_public_id(
                        self.languages@[li].entries@[e],
                    ),
    {
        let all = self.collect_pub_keys();
        // the keys, first occurrences only
        let mut keys: Vec<String> = Vec::new();
        let na = all.len();
        let mut i: usize = 0;
        proof {
            crate::compile::lemma_dedupe_set(views_of(all@).take(0));
            assert(views_of(all@).take(0) =~= Seq::<Seq<char>>::empty());
            assert(views_of(keys@) =~= crate::compile::dedupe_first(views_of(all@).take(0)));
        }
        while i < na
            invariant
                i <= na,
                na == all@.len(),
                views_of(keys@) == crate::compile::dedupe_first(views_of(all@).take(i as int)),
            decreases na - i,
        {
            let ghost pre = views_of(all@).take(i as int);
            let ghost pre1 = views_of(all@).take(i as int + 1);
            proof {
                assert(pre1.drop_last() =~= pre);
                assert(pre1.last() == all@[i as int]@);
                crate::compile::lemma_dedupe_set(pre);
            }
            let mut seen = false;
            let nk = keys.len();
            let mut j: usize = 0;
            while j < nk
                invariant
                    j <= nk,
                    nk == keys@.len(),
                    seen == exists|q: int| 0 <= q < j && #[trigger] keys@[q]@ == all@[i as int]@,
                decreases nk - j,
            {
                if str_eq(keys[j].as_str(), all[i].as_str()) {
                    seen = true;
                    proof {
                        assert(keys@[j as int]@ == all@[i as int]@);
                    }
                }
                j = j + 1;
            }
            proof {
                if seen {
                    let q = choose|q: int|
                        0 <= q < keys@.len() && #[trigger] keys@[q]@ == all@[i as int]@;
                    assert(views_of(keys@)[q] == all@[i as int]@);
                    assert(views_of(keys@).contains(all@[i as int]@));
                    assert(pre.to_set().contains(all@[i as int]@));
                    assert(pre.contains(all@[i as int]@));
                } else {
                    if pre.contains(all@[i as int]@) {
                        assert(pre.to_set().contains(all@[i as int]@));
                        assert(views_of(keys@).to_set().contains(all@[i as int]@));
                        let q = choose|q: int|
                            0 <= q < views_of(keys@).len() && views_of(keys@)[q] == all@[i as int]@;
                        assert(keys@[q]@ == all@[i as int]@);
                    }
                }
            }
            if !seen {
                keys.push(all[i].clone());
                proof {
                    assert(views_of(keys@) =~= crate::compile::dedupe_first(pre).push(
                        all@[i as int]@,
                    ));
                    assert(views_of(keys@) =~= crate::compile::dedupe_first(pre1));
                }
            } else {
                proof {
                    assert(views_of(keys@) =~= crate::compile::dedupe_first(pre1));
                }
            }
            i = i + 1;
        }
        proof {
            assert(views_of(all@).take(na as int) =~= views_of(all@));
            crate::compile::lemma_dedupe_set(views_of(all@));
        }
        // one report entry per key that some language misses
        let mut out: Vec<MessageValidationErrorEntry> = Vec::new();
        let nk = keys.len();
        let mut j: usize = 0;
        while j < nk
            invariant
                j <= nk,
                nk == keys@.len(),
                views_of(keys@) == crate::compile::dedupe_first(views_of(all@)),
                forall|x: int|
                    0 <= x < out@.len() ==> {
                        let key = (#[trigger] out@[x]).message_id@;
                        &&& views_of(out@[x].defined_in_languages@) == defined_tags(
                            self.languages@,
                            key,
                        )
                        &&& views_of(out@[x].undefined_in_languages@) == undefined_tags(
                            self.languages@,
                            key,
                        )
                        &&& undefined_tags(self.languages@, key).len() > 0
                    },
                forall|x: int|
                    0 <= x < out@.len() ==> exists|q: int|
                        0 <= q < j && (#[trigger] out@[x]).message_id@ == keys@[q]@,
                forall|x: int, y: int|
                    0 <= x < y < out@.len() ==> (#[trigger] out@[x]).message_id@ != (
                    #[trigger] out@[y]).message_id@,
                forall|q: int|
                    (0 <= q < j && undefined_tags(self.languages@, #[trigger] keys@[q]@).len() > 0)
                        ==> exists|x: int|
                        0 <= x < out@.len() && (#[trigger] out@[x]).message_id@ == keys@[q]@,
            decreases nk - j,
        {
            let key = PublicFluentId::new(keys[j].clone());
            let (defined, undefined) = self.split_languages(&key);
            let ghost oldout = out@;
            if undefined.len() > 0 {
                out.push(
                    MessageValidationErrorEntry {
                        message_id: keys[j].clone(),
                        defined_in_languages: defined,
                        undefined_in_languages: undefined,
                    },
                );
                proof {
                    assert forall|x: int, y: int|
                        0 <= x < y < out@.len() implies (#[trigger] out@[x]).message_id@ != (
                    #[trigger] out@[y]).message_id@ by {
                        if y < out@.len() - 1 {
                            assert(out@[x] == oldout[x] && out@[y] == oldout[y]);
                        } else {
                            assert(out@[x] == oldout[x]);
                            let q = choose|q: int|
                                0 <= q < j && (#[trigger] oldout[x]).message_id@ == keys@[q]@;
                            assert(views_of(keys@)[q] != views_of(keys@)[j as int]);
                        }
                    }
                }
            }
            proof {
                assert forall|q: int|
                    (0 <= q < j + 1 && undefined_tags(self.languages@, #[trigger] keys@[q]@).len()
                        > 0) implies exists|x: int|
                    0 <= x < out@.len() && (#[trigger] out@[x]).message_id@ == keys@[q]@ by {
                    if q < j {
                        let x = choose|x: int|
                            0 <= x < oldout.len() && (#[trigger] oldout[x]).message_id@
                                == keys@[q]@;
                        assert(out@[x] == oldout[x]);
                    } else {
                        assert(out@[out@.len() - 1].message_id@ == keys@[j as int]@);
                    }
                }
            }
            j = j + 1;
        }
        proof {
            // every public key missing somewhere is among the collected
            // keys, and so among the reported entries
            assert forall|li: int, e: int, lj: int|
                (0 <= li < self.languages@.len() && 0 <= e < self.languages@[li].entries@.len()
                    && !(#[trigger] self.languages@[li].entries@[e]).private && 0 <= lj
                    < self.languages@.len() && !lang_has_key(
                    #[trigger] self.languages@[lj],
                    spec_public_id(self.languages@[li].entries@[e]),
                )) implies exists|x: int|
                0 <= x < out@.len() && (#[trigger] out@[x]).message_id@ == spec_public_id(
                    self.languages@[li].entries@[e],
                ) by {
                let key = spec_public_id(self.languages@[li].entries@[e]);
                lemma_all_pub_keys_elem(self.languages@, li, e);
                assert(views_of(all@).contains(key));
                assert(views_of(all@).to_set().contains(key));
                assert(views_of(keys@).to_set().contains(key));
                let q = choose|q: int|
                    0 <= q < views_of(keys@).len() && views_of(keys@)[q] == key;
                assert(keys@[q]@ == key);
                lemma_undefined_tags_nonempty(self.languages@, key, lj);
            }
        }
        out
    }

    /// Validates the bundle and assembles its public face: the default
    /// language must be compiled, and every public key must be defined in
    /// every language; the entry points take the default language's
    /// variable order.
    #[verifier::loop_isolation(false)]
    #[verifier::rlimit(100)]
    #[verifier::spinoff_prover]
    pub fn build(self) -> (r: Result<MessageBundleApi, Error>)
        requires
            self.wf(),
        ensures
            r is Ok ==> keys_uniform(self.languages@),
            !keys_uniform(self.languages@) ==> r is Err,
            (keys_uniform(self.languages@) && spec_default_compiled(self)) ==> r is Ok,
            !spec_default_compiled(self) ==> (r matches Err(Error::UnsupportedDefaultLanguage {
                lang,
            }) && lang@ == spec_default_tag(self)),
            r matches Err(e) ==> (match e {
                Error::UnsupportedDefaultLanguage { .. } => !spec_default_compiled(self),
                Error::MessageBundleValidationError { bundle, entries } => spec_default_compiled(
                    self,
                ) && !keys_uniform(self.languages@) && bundle@ == self.bundle_name@ && (forall|
                    x: int,
                |
                    0 <= x < entries@.len() ==> {
                        let key = (#[trigger] entries@[x]).message_id@;
                        &&& views_of(entries@[x].defined_in_languages@) == defined_tags(
                            self.languages@,
                            key,
                        )
                        &&& views_of(entries@[x].undefined_in_languages@) == undefined_tags(
                            self.languages@,
                            key,
                        )
                        &&& undefined_tags(self.languages@, key).len() > 0
                    }) && (forall|x: int, y: int|
                    0 <= x < y < entries@.len() ==> (#[trigger] entries@[x]).message_id@ != (
                    #[trigger] entries@[y]).message_id@) && (forall|li: int, e2: int, lj: int|
                    (0 <= li < self.languages@.len() && 0 <= e2
                        < self.languages@[li].entries@.len() && !(
                    #[trigger] self.languages@[li].entries@[e2]).private && 0 <= lj
                        < self.languages@.len() && !lang_has_key(
                        #[trigger] self.languages@[lj],
                        spec_public_id(self.languages@[li].entries@[e2]),
                    )) ==> exists|x: int|
                        0 <= x < entries@.len() && (#[trigger] entries@[x]).message_id@
                            == spec_public_id(self.languages@[li].entries@[e2])),
                _ => false,
            }),
            r matches Ok(api) ==> {
                &&& api.languages == self.languages
                &&& api.bundle_name == self.bundle_name
                &&& (match self.default_language {
                    Some(d) => api.default_language@ == d@,
                    None => self.languages@.len() > 0 && api.default_language@
                        == self.languages@[0].language_id@,
                })
                &&& forall|dd: int|
                    0 <= dd < api.languages@.len() && (#[trigger] api.languages@[dd]).language_id@
                        == api.default_language@ ==> (api.entry_points@.len() == pub_count(
                        api.languages@[dd].entries@,
                    ) && (forall|k: int|
                        0 <= k < api.entry_points@.len() ==> exists|e: int|
                            0 <= e < api.languages@[dd].entries@.len() && !(
                            #[trigger] api.languages@[dd].entries@[e]).private && (
                            #[trigger] api.entry_points@[k]).public_id@ == spec_public_id(
                                api.languages@[dd].entries@[e],
                            ) && api.entry_points@[k].vars@ == api.languages@[dd].entries@[e].vars@))
            },
    {
        if self.languages.len() == 0 && matches!(&self.default_language, Option::None) {
            let empty_lang = String::new();
            proof {
                assert(!spec_default_compiled(self));
                assert(empty_lang@ =~= spec_default_tag(self));
            }
            return Err(Error::UnsupportedDefaultLanguage { lang: empty_lang });
        }
        let default_tag = match self.default_language_id() {
            Some(t) => t,
            None => {
                proof {
                    assert(false);
                }
                return Err(Error::UnsupportedDefaultLanguage { lang: String::new() });
            },
        };
        proof {
            assert(default_tag@ == spec_default_tag(self));
        }
        let di = match self.find_language(default_tag.as_str()) {
            Some(i) => i,
            None => {
                return Err(Error::UnsupportedDefaultLanguage { lang: default_tag });
            },
        };
        if !self.check_uniform() {
            let entries = self.validation_entries();
            proof {
                assert(forall|x: int|
                    0 <= x < entries@.len() ==> {
                        let key = (#[trigger] entries@[x]).message_id@;
                        &&& views_of(entries@[x].defined_in_languages@) == defined_tags(
                            self.languages@,
                            key,
                        )
                        &&& views_of(entries@[x].undefined_in_languages@) == undefined_tags(
                            self.languages@,
                            key,
                        )
                        &&& undefined_tags(self.languages@, key).len() > 0
                    });
                assert(forall|x: int, y: int|
                    0 <= x < y < entries@.len() ==> (#[trigger] entries@[x]).message_id@ != (
                    #[trigger] entries@[y]).message_id@);
                assert(forall|li: int, e2: int, lj: int|
                    (0 <= li < self.languages@.len() && 0 <= e2
                        < self.languages@[li].entries@.len() && !(
                    #[trigger] self.languages@[li].entries@[e2]).private && 0 <= lj
                        < self.languages@.len() && !lang_has_key(
                        #[trigger] self.languages@[lj],
                        spec_public_id(self.languages@[li].entries@[e2]),
                    )) ==> exists|x: int|
                        0 <= x < entries@.len() && (#[trigger] entries@[x]).message_id@
                            == spec_public_id(self.languages@[li].entries@[e2]));
            }
            return Err(
                Error::MessageBundleValidationError {
                    bundle: self.bundle_name.clone(),
                    entries,
                },
            );
        }
        // one dispatch entry per public key, anchored on the default
        // language's callables and variable order
        let mut entry_points: Vec<DispatchEntry> = Vec::new();
        let m = self.languages[di].entries.len();
        let mut k: usize = 0;
        proof {
            assert(self.languages@[di as int].entries@.subrange(0, 0) =~= Seq::<Callable>::empty());
        }
        while k < m
            invariant
                di < self.languages@.len(),
                k <= m,
                m == self.languages@[di as int].entries@.len(),
                entry_points@.len() == pub_count(
                    self.languages@[di as int].entries@.subrange(0, k as int),
                ),
                forall|x: int|
                    0 <= x < entry_points@.len() ==> exists|e: int|
                        0 <= e < self.languages@[di as int].entries@.len() && !(
                        #[trigger] self.languages@[di as int].entries@[e]).private && (
                        #[trigger] entry_points@[x]).public_id@ == spec_public_id(
                            self.languages@[di as int].entries@[e],
                        ) && entry_points@[x].vars@ == self.languages@[di as int].entries@[e].vars@,
            decreases m - k,
        {
            proof {
                let pre1 = self.languages@[di as int].entries@.subrange(0, k as int + 1);
                assert(pre1.drop_last() =~= self.languages@[di as int].entries@.subrange(
                    0,
                    k as int,
                ));
                assert(pre1.last() == self.languages@[di as int].entries@[k as int]);
            }
            if !self.languages[di].entries[k].private {
                let key = self.languages[di].entries[k].public_id();
                let fn_name = crate::casing::to_snake_case(
                    self.languages[di].entries[k].id.as_str(),
                );
                let vars = clone_vars(&self.languages[di].entries[k].vars);
                let n = self.languages.len();
                let mut impls: Vec<(String, usize)> = Vec::new();
                let mut j: usize = 0;
                while j < n
                    invariant
                        j <= n,
                        n == self.languages@.len(),
                    decreases n - j,
                {
                    match find_public_entry(&self.languages[j], &key) {
                        Some(x) => {
                            impls.push((self.languages[j].language_id.clone(), x));
                        },
                        None => {},
                    }
                    j = j + 1;
                }
                let ghost olde = entry_points@;
                entry_points.push(DispatchEntry { public_id: key, fn_name, vars, impls });
                proof {
                    assert forall|x: int| 0 <= x < entry_points@.len() implies exists|e: int|
                        0 <= e < self.languages@[di as int].entries@.len() && !(
                        #[trigger] self.languages@[di as int].entries@[e]).private && (
                        #[trigger] entry_points@[x]).public_id@ == spec_public_id(
                            self.languages@[di as int].entries@[e],
                        ) && entry_points@[x].vars@ == self.languages@[di as int].entries@[e].vars@ by {
                        if x < olde.len() {
                            assert(entry_points@[x] == olde[x]);
                        } else {
                            let e = k as int;
                            assert(0 <= e < self.languages@[di as int].entries@.len() && !(
                            self.languages@[di as int].entries@[e]).private && entry_points@[
                            x].public_id@ == spec_public_id(self.languages@[di as int].entries@[e])
                                && entry_points@[x].vars@ == self.languages@[di as int].entries@[
                            e].vars@);
                        }
                    }
                }
            }
            k = k + 1;
        }
        proof {
            assert(self.languages@[di as int].entries@.subrange(0, m as int)
                =~= self.languages@[di as int].entries@);
        }
        proof {
            assert forall|dd: int|
                0 <= dd < self.languages@.len() && (#[trigger] self.languages@[dd]).language_id@
                    == default_tag@ implies dd == di as int by {
                if dd != di as int {
                    assert(self.languages@[dd].language_id@ != self.languages@[
                        di as int].language_id@);
                }
            }
        }
        Ok(
            MessageBundleApi {
                bundle_name: self.bundle_name,
                default_language: default_tag,
                languages: self.languages,
                entry_points,
            },
        )
    }
}

/// The index of the public entry of this language with the given key.
fn find_public_entry(lb: &LanguageBuilder, key: &PublicFluentId) -> (r: Option<usize>)
    ensures
        r matches Some(i) ==> i < lb.entries@.len() && !lb.entries@[i as int].private
            && spec_public_id(lb.entries@[i as int]) == key@,
{
    let n = lb.entries.len();
    let mut i: usize = 0;
    while i < n
        invariant
            i <= n,
            n == lb.entries@.len(),
        decreases n - i,
    {
        if !lb.entries[i].private {
            let k = lb.entries[i].public_id();
            if k.matches(key) {
                return Some(i);
            }
        }
        i = i + 1;
    }
    None
}

fn clone_vars(vars: &Vec<FluentVariable>) -> (r: Vec<FluentVariable>)
    ensures
        r@ == vars@,
{
    let n = vars.len();
    let mut out: Vec<FluentVariable> = Vec::new();
    let mut i: usize = 0;
    while i < n
        invariant
            i <= n,
            n == vars@.len(),
            out@ == vars@.subrange(0, i as int),
        decreases n - i,
    {
        out.push(vars[i].clone());
        proof {
            assert(out@ =~= vars@.subrange(0, i as int + 1));
        }
        i = i + 1;
    }
    proof {
        assert(vars@.subrange(0, n as int) =~= vars@);
    }
    out
}

/// The tags of a list of language registries.
pub open spec fn language_tags(langs: Seq<LanguageBuilder>) -> Seq<Seq<char>> {
    langs.map_values(|lb: LanguageBuilder| lb.language_id@)
}

impl MessageBundleApi {
    /// The supported language tags, sorted ascending: the closed set the
    /// bundle serves, in the order the emitted registry lists it and the
    /// order the header negotiation's lookup requires.
    pub fn supported_language_ids(&self) -> (r: Vec<String>)
        ensures
            strictly_sorted(views_of(r@)),
            views_of(r@).to_set() == language_tags(self.languages@).to_set(),
    {
        let n = self.languages.len();
        let mut out: Vec<String> = Vec::new();
        let mut i: usize = 0;
        proof {
            assert(language_tags(self.languages@).take(0) =~= Seq::<Seq<char>>::empty());
            assert(views_of(out@).to_set() =~= language_tags(self.languages@).take(0).to_set());
        }
        while i < n
            invariant
                i <= n,
                n == self.languages@.len(),
                strictly_sorted(views_of(out@)),
                views_of(out@).to_set() == language_tags(self.languages@).take(i as int).to_set(),
            decreases n - i,
        {
            proof {
                let pre = language_tags(self.languages@).take(i as int);
                let pre1 = language_tags(self.languages@).take(i as int + 1);
                assert(pre1.drop_last() =~= pre);
                assert(pre1.last() == self.languages@[i as int].language_id@);
                assert(pre1 =~= pre.push(self.languages@[i as int].language_id@));
                pre.lemma_push_to_set_commute(self.languages@[i as int].language_id@);
            }
            insert_sorted(&mut out, self.languages[i].language_id.as_str());
            i = i + 1;
        }
        proof {
            assert(language_tags(self.languages@).take(n as int) =~= language_tags(
                self.languages@,
            ));
        }
        out
    }

    pub fn default_language_id(&self) -> (r: &str)
        ensures
            r@ == self.default_language@,
    {
        self.default_language.as_str()
    }

    /// The registry serving a tag: the exact match, or the default
    /// language's registry when the tag is not supported.
    fn pick_language(&self, language: &str) -> (r: Option<usize>)
        ensures
            ({
                let pick = spec_pick_language(
                    self.languages@,
                    language@,
                    self.default_language@,
                );
                match r {
                    Some(i) => pick == i,
                    None => pick < 0,
                }
            }),
            r matches Some(i) ==> i < self.languages@.len(),
    {
        let n = self.languages.len();
        let mut i: usize = 0;
        while i < n
            invariant
                i <= n,
                n == self.languages@.len(),
                forall|j: int|
                    0 <= j < i ==> (#[trigger] self.languages@[j]).language_id@ != language@,
            decreases n - i,
        {
            if str_eq(self.languages[i].language_id.as_str(), language) {
                proof {
                    lemma_first_with_tag_at(self.languages@, language@, i as int);
                }
                return Some(i);
            }
            i = i + 1;
        }
        proof {
            lemma_first_with_tag_at(self.languages@, language@, n as int);
        }
        let mut i: usize = 0;
        while i < n
            invariant
                i <= n,
                n == self.languages@.len(),
                first_with_tag(self.languages@, language@) < 0,
                forall|j: int|
                    0 <= j < i ==> (#[trigger] self.languages@[j]).language_id@
                        != self.default_language@,
            decreases n - i,
        {
            if str_eq(self.languages[i].language_id.as_str(), self.default_language.as_str()) {
                proof {
                    lemma_first_with_tag_at(self.languages@, self.default_language@, i as int);
                }
                return Some(i);
            }
            i = i + 1;
        }
        proof {
            lemma_first_with_tag_at(self.languages@, self.default_language@, n as int);
        }
        None
    }

    /// Formats the message or attribute named by its path under the given
    /// active language, binding the variables by name. The text is the
    /// interpretation of the chosen language's compiled entry; an unknown
    /// path, or a tag with no serving registry, yields nothing.
    pub fn format_message(&self, language: &str, id: &str, args: &Vec<(String, Value)>) -> (r:
        Option<Message>)
        requires
            forall|i: int| 0 <= i < self.languages@.len() ==> (#[trigger] self.languages@[i]).wf(),
        ensures
            ({
                let pick = spec_pick_language(
                    self.languages@,
                    language@,
                    self.default_language@,
                );
                if pick < 0 {
                    r is None
                } else {
                    let lb = self.languages@[pick];
                    if exists|e: int|
                        0 <= e < lb.entries@.len() && (#[trigger] lb.entries@[e]).id@ == id@ {
                        r matches Some(msg) && forall|e: int|
                            (0 <= e < lb.entries@.len() && (#[trigger] lb.entries@[e]).id@ == id@)
                                ==> msg@ == spec_format_entry(
                                lb.entries@,
                                lb.language_id@,
                                e,
                                named_models(args@),
                            )
                    } else {
                        r is None
                    }
                }
            }),
    {
        let li = match self.pick_language(language) {
            Some(i) => i,
            None => {
                return None;
            },
        };
        let lb = &self.languages[li];
        let fid = crate::ident::FluentId::new(id);
        let ei = match lb.find_entry(&fid) {
            Some(e) => e,
            None => {
                return None;
            },
        };
        let mut out = String::new();
        format_entry(lb, ei, args, &mut out);
        proof {
            assert(self.languages@[li as int].entries@[ei as int].id@ == id@);
            // the id is unique in a well-formed registry, so every entry
            // carrying it is the one formatted
            assert forall|e: int|
                (0 <= e < lb.entries@.len() && (#[trigger] lb.entries@[e]).id@ == id@) implies e
                == ei as int by {
                if e != ei as int {
                    if e < ei as int {
                        assert(lb.entries@[e].id@ != lb.entries@[ei as int].id@);
                    } else {
                        assert(lb.entries@[ei as int].id@ != lb.entries@[e].id@);
                    }
                }
            }
        }
        Some(Message::new(out))
    }
}

} // verus!
