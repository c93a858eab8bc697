use vstd::prelude::*;

use crate::order::views_of;
use crate::strutil::str_eq;

verus! {

/// How a request's language is chosen: whether the quality-ordered
/// language header is consulted, which cookie may carry the tag, and the
/// tag to fall back on.
#[derive(Debug)]
pub struct RequestLanguageConfig {
    skip_language_header: bool,
    language_cookie: Option<String>,
    default_language: Option<String>,
}

impl RequestLanguageConfig {
    pub closed spec fn spec_skip_header(&self) -> bool {
        self.skip_language_header
    }

    pub closed spec fn spec_cookie(&self) -> Option<String> {
        self.language_cookie
    }

    pub closed spec fn spec_fallback(&self) -> Option<String> {
        self.default_language
    }

    pub fn builder() -> (r: RequestLanguageConfigBuilder)
        ensures
            !r.config.spec_skip_header(),
            r.config.spec_cookie() is None,
            r.config.spec_fallback() is None,
    {
        RequestLanguageConfigBuilder {
            config: RequestLanguageConfig {
                skip_language_header: false,
                language_cookie: None,
                default_language: None,
            },
        }
    }

    pub fn ignore_language_header(&self) -> (r: bool)
        ensures
            r == self.spec_skip_header(),
    {
        self.skip_language_header
    }

    pub fn language_cookie_name(&self) -> (r: Option<&str>)
        ensures
            match self.spec_cookie() {
                Some(c) => r matches Some(s) && s@ == c@,
                None => r is None,
            },
    {
        match &self.language_cookie {
            Some(c) => Some(c.as_str()),
            None => None,
        }
    }

    pub fn fallback_language_id(&self) -> (r: Option<&str>)
        ensures
            match self.spec_fallback() {
                Some(c) => r matches Some(s) && s@ == c@,
                None => r is None,
            },
    {
        match &self.default_language {
            Some(c) => Some(c.as_str()),
            None => None,
        }
    }
}

/// Builds a request-language configuration, option by option.
#[derive(Debug)]
pub struct RequestLanguageConfigBuilder {
    pub config: RequestLanguageConfig,
}

impl RequestLanguageConfigBuilder {
    pub fn ignore_accept_language_header(self, value: bool) -> (r: Self)
        ensures
            r.config.spec_skip_header() == value,
            r.config.spec_cookie() == self.config.spec_cookie(),
            r.config.spec_fallback() == self.config.spec_fallback(),
    {
        RequestLanguageConfigBuilder {
            config: RequestLanguageConfig { skip_language_header: value, ..self.config },
        }
    }

    pub fn language_cookie_name(self, value: &str) -> (r: Self)
        ensures
            r.config.spec_cookie() matches Some(c) && c@ == value@,
            r.config.spec_skip_header() == self.config.spec_skip_header(),
            r.config.spec_fallback() == self.config.spec_fallback(),
    {
        RequestLanguageConfigBuilder {
            config: RequestLanguageConfig {
                language_cookie: Some(value.to_owned()),
                ..self.config
            },
        }
    }

    pub fn fallback_language_id(self, value: &str) -> (r: Self)
        ensures
            r.config.spec_fallback() matches Some(c) && c@ == value@,
            r.config.spec_skip_header() == self.config.spec_skip_header(),
            r.config.spec_cookie() == self.config.spec_cookie(),
    {
        RequestLanguageConfigBuilder {
            config: RequestLanguageConfig {
                default_language: Some(value.to_owned()),
                ..self.config
            },
        }
    }

    pub fn build(self) -> (r: RequestLanguageConfig)
        ensures
            r == self.config,
    {
        self.config
    }
}

/// Position `i` of `q` sits inside a parameter section: some `;` stands
/// before it with no `,` in between. A quality value can only be written
/// there.
pub open spec fn params_ctx(q: Seq<char>, i: int) -> bool {
    exists|j: int|
        0 <= j < i && #[trigger] q[j] == ';' && (forall|k: int| j < k < i ==> #[trigger] q[k] != ',')
}

/// A header the quality sort can take: no parameter section holds the
/// letter that could spell a non-numeric quality value, whose comparison
/// would not be a total order.
pub open spec fn header_safe(q: Seq<char>) -> bool {
    forall|i: int| 0 <= i < q.len() && params_ctx(q, i) ==> #[trigger] q[i] != 'n' && q[i] != 'N'
}

/// Stepping one character extends or leaves a parameter section.
proof fn lemma_params_ctx_step(q: Seq<char>, i: int)
    requires
        0 <= i < q.len(),
    ensures
        params_ctx(q, i + 1) == (q[i] != ',' && (q[i] == ';' || params_ctx(q, i))),
{
    if q[i] != ',' && (q[i] == ';' || params_ctx(q, i)) {
        if q[i] == ';' {
            assert(q[i] == ';' && (forall|k: int| i < k < i + 1 ==> q[k] != ','));
            assert(params_ctx(q, i + 1));
        } else {
            let j = choose|j: int|
                0 <= j < i && #[trigger] q[j] == ';' && (forall|k: int|
                    j < k < i ==> #[trigger] q[k] != ',');
            assert(q[j] == ';' && (forall|k: int| j < k < i + 1 ==> q[k] != ','));
            assert(params_ctx(q, i + 1));
        }
    }
    if params_ctx(q, i + 1) {
        let j = choose|j: int|
            0 <= j < i + 1 && #[trigger] q[j] == ';' && (forall|k: int|
                j < k < i + 1 ==> #[trigger] q[k] != ',');
        assert(q[i] != ',' || j == i);
        if j < i {
            assert(forall|k: int| j < k < i ==> q[k] != ',');
            assert(params_ctx(q, i));
        }
    }
}

/// Checks that a header is safe for the quality sort.
#[verifier::loop_isolation(false)]
fn header_safe_check(s: &str) -> (r: bool)
    ensures
        r == header_safe(s@),
{
    let len = s.unicode_len();
    let mut in_params = false;
    let mut i: usize = 0;
    proof {
        if params_ctx(s@, 0) {
            let j = choose|j: int|
                0 <= j < 0 && #[trigger] s@[j] == ';' && (forall|k: int|
                    j < k < 0 ==> #[trigger] s@[k] != ',');
        }
    }
    while i < len
        invariant
            i <= len,
            len == s@.len(),
            in_params == params_ctx(s@, i as int),
            forall|x: int| 0 <= x < i && params_ctx(s@, x) ==> #[trigger] s@[x] != 'n' && s@[x]
                != 'N',
        decreases len - i,
    {
        let c = s.get_char(i);
        if in_params && (c == 'n' || c == 'N') {
            proof {
                assert(params_ctx(s@, i as int) && (s@[i as int] == 'n' || s@[i as int] == 'N'));
            }
            return false;
        }
        proof {
            lemma_params_ctx_step(s@, i as int);
        }
        if c == ',' {
            in_params = false;
        } else if c == ';' {
            in_params = true;
        }
        i = i + 1;
    }
    true
}

/// The supported tags a safe, quality-ordered language header has in
/// common with a supported list, best first. The rule tables of the
/// parser are fixed, so the result depends on the two texts alone. The
/// supported list must be sorted ascending for the lookup to be
/// complete; whatever the order, every result element comes from the
/// supported list.
pub uninterp spec fn accept_intersection_of(header: Seq<char>, supported: Seq<Seq<char>>) -> Seq<
    Seq<char>,
>;

/// Relies on accept_language's intersection_ordered: it parses the
/// header's quality-ordered tags and keeps, in that order, those found
/// in the supported list by binary search. The call sorts by quality
/// with a comparator over parsed numbers, so the header must be safe: a
/// quality written as a non-numeric value would make that comparison
/// non-total, and the sort may then panic.
#[verifier::external_body]
fn accept_intersection(header: &str, supported: &Vec<String>) -> (r: Vec<String>)
    requires
        header_safe(header@),
    ensures
        views_of(r@) == accept_intersection_of(header@, views_of(supported@)),
        forall|i: int|
            0 <= i < r@.len() ==> exists|j: int|
                0 <= j < supported@.len() && #[trigger] r@[i]@ == supported@[j]@,
{
    let refs: Vec<&str> = supported.iter().map(|s| s.as_str()).collect();
    accept_language::intersection_ordered(header, &refs)
}

/// Whether a tag is in the supported list.
fn supported_has(supported: &Vec<String>, tag: &str) -> (r: bool)
    ensures
        r == exists|j: int| 0 <= j < supported@.len() && #[trigger] supported@[j]@ == tag@,
{
    let n = supported.len();
    let mut i: usize = 0;
    while i < n
        invariant
            i <= n,
            n == supported@.len(),
            forall|j: int| 0 <= j < i ==> #[trigger] supported@[j]@ != tag@,
        decreases n - i,
    {
        if str_eq(supported[i].as_str(), tag) {
            proof {
                assert(supported@[i as int]@ == tag@);
            }
            return true;
        }
        i = i + 1;
    }
    false
}

/// The request-language decision, apart from any transport: the cookie's
/// tag when a cookie is configured, present, and supported; else the
/// best supported tag of the language header, unless the header is
/// ignored, absent, or unsafe for the quality sort; else the configured
/// fallback when supported; else the bundle's own default.
pub fn negotiate_language(
    config: &RequestLanguageConfig,
    cookie_value: Option<&str>,
    header_value: Option<&str>,
    supported: &Vec<String>,
    default_id: &str,
) -> (r: String)
    ensures
        ({
            let sup = views_of(supported@);
            let cookie_hit = config.spec_cookie() is Some && (match cookie_value {
                Some(v) => sup.contains(v@),
                None => false,
            });
            let header_hits = match header_value {
                Some(h) => {
                    if !config.spec_skip_header() && header_safe(h@) {
                        accept_intersection_of(h@, sup)
                    } else {
                        Seq::empty()
                    }
                },
                None => Seq::empty(),
            };
            let fallback_hit = match config.spec_fallback() {
                Some(f) => sup.contains(f@),
                None => false,
            };
            if cookie_hit {
                cookie_value matches Some(v) && r@ == v@
            } else if header_hits.len() > 0 {
                r@ == header_hits[0]
            } else if fallback_hit {
                config.spec_fallback() matches Some(f) && r@ == f@
            } else {
                r@ == default_id@
            }
        }),
{
    if matches!(&config.language_cookie, Option::Some(_)) {
        match cookie_value {
            Some(v) => {
                if supported_has(supported, v) {
                    proof {
                        let j = choose|j: int|
                            0 <= j < supported@.len() && #[trigger] supported@[j]@ == v@;
                        assert(views_of(supported@)[j] == v@);
                        assert(views_of(supported@).contains(v@));
                    }
                    return v.to_owned();
                }
                proof {
                    if views_of(supported@).contains(v@) {
                        let j = choose|j: int|
                            0 <= j < views_of(supported@).len() && views_of(supported@)[j] == v@;
                        assert(supported@[j]@ == v@);
                    }
                }
            },
            None => {},
        }
    }
    if !config.skip_language_header {
        match header_value {
            Some(h) => {
                if header_safe_check(h) {
                    let hits = accept_intersection(h, supported);
                    if hits.len() > 0 {
                        proof {
                            assert(views_of(hits@)[0] == hits@[0]@);
                        }
                        return hits[0].clone();
                    }
                }
            },
            None => {},
        }
    }
    match &config.default_language {
        Some(f) => {
            if supported_has(supported, f.as_str()) {
                proof {
                    let j = choose|j: int|
                        0 <= j < supported@.len() && #[trigger] supported@[j]@ == f@;
                    assert(views_of(supported@)[j] == f@);
                }
                return f.clone();
            }
            proof {
                if views_of(supported@).contains(f@) {
                    let j = choose|j: int|
                        0 <= j < views_of(supported@).len() && views_of(supported@)[j] == f@;
                    assert(supported@[j]@ == f@);
                }
            }
        },
        None => {},
    }
    default_id.to_owned()
}

} // verus!
