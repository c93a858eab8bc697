use vstd::prelude::*;

verus! {

/// The dot-joined path naming one message, term, or attribute inside a
/// single language's registry, for example `greeting` or `greeting.tooltip`.
#[derive(Debug, Clone)]
pub struct FluentId {
    path: String,
}

impl View for FluentId {
    type V = Seq<char>;

    closed spec fn view(&self) -> Seq<char> {
        self.path@
    }
}

/// The sequence a joined identifier inserts between the two parts.
pub open spec fn id_sep() -> Seq<char> {
    seq!['.']
}

impl FluentId {
    pub fn new(s: &str) -> (r: Self)
        ensures
            r@ == s@,
    {
        FluentId { path: s.to_owned() }
    }

    /// The path of an attribute: the owner's path, a dot, the attribute name.
    pub fn join(&self, id: &str) -> (r: Self)
        ensures
            r@ == self@ + id_sep() + id@,
    {
        let mut path = self.path.clone();
        path.append(".");
        path.append(id);
        proof {
            reveal_strlit(".");
            assert("."@ =~= id_sep());
        }
        FluentId { path }
    }

    pub fn as_str(&self) -> (r: &str)
        ensures
            r@ == self@,
    {
        self.path.as_str()
    }

    /// Equality of the underlying paths.
    pub fn matches(&self, other: &FluentId) -> (r: bool)
        ensures
            r == (self@ == other@),
    {
        self.path == other.path
    }
}

/// The identifier under which one public message is the same entry point in
/// every language: its path, and, when it takes variables, `=` and the
/// variable source names, sorted and joined with commas.
#[derive(Debug, Clone)]
pub struct PublicFluentId {
    key: String,
}

impl View for PublicFluentId {
    type V = Seq<char>;

    closed spec fn view(&self) -> Seq<char> {
        self.key@
    }
}

impl PublicFluentId {
    pub fn new(s: String) -> (r: Self)
        ensures
            r@ == s@,
    {
        PublicFluentId { key: s }
    }

    pub fn as_str(&self) -> (r: &str)
        ensures
            r@ == self@,
    {
        self.key.as_str()
    }

    /// Equality of the underlying keys.
    pub fn matches(&self, other: &PublicFluentId) -> (r: bool)
        ensures
            r == (self@ == other@),
    {
        self.key == other.key
    }
}

} // verus!
