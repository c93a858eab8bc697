use vstd::prelude::*;

pub mod ident;
pub mod number;
pub mod order;
pub mod numformat;
pub mod plural;
pub mod casing;
pub mod ast;
pub mod value;
pub mod ir;
pub mod error;
pub mod compile;
pub mod lowering;
pub mod function;
pub mod interp;
pub mod bundle;
pub mod message;
pub mod langbundle;
pub mod laws;
pub mod support;
pub mod codegen;
pub mod strutil;

verus! {

/// A localized, already-formatted message produced by a bundle.
#[derive(Debug, Clone)]
pub struct Message {
    text: String,
}

impl View for Message {
    type V = Seq<char>;

    closed spec fn view(&self) -> Seq<char> {
        self.text@
    }
}

impl Message {
    pub fn new(value: String) -> (r: Self)
        ensures
            r@ == value@,
    {
        Message { text: value }
    }

    pub fn as_str(&self) -> (r: &str)
        ensures
            r@ == self@,
    {
        self.text.as_str()
    }
}

/// A language tag wrapped as its own type.
#[derive(Debug, Clone)]
pub struct LanguageSpec {
    tag: String,
}

impl View for LanguageSpec {
    type V = Seq<char>;

    closed spec fn view(&self) -> Seq<char> {
        self.tag@
    }
}

impl LanguageSpec {
    pub fn new(value: String) -> (r: Self)
        ensures
            r@ == value@,
    {
        LanguageSpec { tag: value }
    }

    pub fn as_str(&self) -> (r: &str)
        ensures
            r@ == self@,
    {
        self.tag.as_str()
    }
}

/// A value that knows which language it renders.
pub trait LanguageAware {
    fn language_id(&self) -> &str;
}

/// A generated bundle type: an exact-match lookup over its closed set of
/// supported language tags, with a default language.
pub trait MessageBundle: LanguageAware {
    fn get(language_id: &str) -> Option<Self> where Self: Sized;

    fn default_language_id() -> &'static str;

    fn supported_language_ids() -> Vec<String>;
}

} // verus!
