use vstd::prelude::*;

verus! {

/// Options a code generator honors when emitting runtime formatting:
/// whether interpolated values are wrapped in directional isolates, and
/// optional hook names for transforming and formatting values. The
/// interpreter in this crate always renders raw text, so these options
/// are carried for emitters and not read by the runtime here.
#[derive(Debug)]
pub struct FluentBundleOptions {
    pub use_isolating: bool,
    pub transform_fn: Option<String>,
    pub format_fn: Option<String>,
}

impl Default for FluentBundleOptions {
    fn default() -> (r: Self)
        ensures
            r.use_isolating,
            r.transform_fn is None,
            r.format_fn is None,
    {
        FluentBundleOptions { use_isolating: true, transform_fn: None, format_fn: None }
    }
}

/// Configuration of the generator that emits one free function per
/// public message, anchored on a default language.
#[derive(Debug)]
pub struct FunctionPerMessageCodeGenerator {
    pub default_language: String,
}

impl FunctionPerMessageCodeGenerator {
    pub fn new(default_language: &str) -> (r: Self)
        ensures
            r.default_language@ == default_language@,
    {
        FunctionPerMessageCodeGenerator { default_language: default_language.to_owned() }
    }
}

/// Configuration of the generator that emits one bundle struct whose
/// methods are the public messages, anchored on a default language.
#[derive(Debug)]
pub struct MessageBundleCodeGenerator {
    pub default_language: String,
    pub bundle_opts: FluentBundleOptions,
}

impl MessageBundleCodeGenerator {
    pub fn new(default_language: &str) -> (r: Self)
        ensures
            r.default_language@ == default_language@,
            r.bundle_opts.use_isolating,
    {
        Self::new_with_options(default_language, FluentBundleOptions::default())
    }

    pub fn new_with_options(default_language: &str, bundle_opts: FluentBundleOptions) -> (r: Self)
        ensures
            r.default_language@ == default_language@,
            r.bundle_opts == bundle_opts,
    {
        MessageBundleCodeGenerator { default_language: default_language.to_owned(), bundle_opts }
    }
}

} // verus!
