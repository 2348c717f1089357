//! The URL record and its parser.
//!
//! The splitting rules, stated over sequences of characters:
//! the raw text must begin with the literal `"http://"`; the remainder is
//! split on the first `/` into an authority and a rest; the authority is
//! split on the first `:` into host and port (port defaults to `"80"`);
//! the rest is split on the first `?` into path and searchpart.

use vstd::prelude::*;
use vstd::string::StrSliceExecFns;

verus! {

/// A URL record: the raw input text together with the four components
/// derived from it by a successful [`Url::parse`].
#[derive(Debug, PartialEq)]
pub struct Url {
    /// The raw input text, kept verbatim.
    pub url: String,
    /// The server name or address; empty until a successful parse.
    pub host: String,
    /// The port text, `"80"` when no explicit port is present; empty until
    /// a successful parse.
    pub port: String,
    /// The resource path without its query suffix; empty until a successful
    /// parse, and empty when the URL has no `/` after the authority.
    pub path: String,
    /// The query text after the first `?` of the rest; empty until a
    /// successful parse, and empty when no `?` is present.
    pub searchpart: String,
}

/// The scheme prefix every accepted URL starts with.
pub open spec fn http_prefix() -> Seq<char> {
    seq!['h', 't', 't', 'p', ':', '/', '/']
}

/// Whether `s` begins with the literal `"http://"`.
pub open spec fn starts_with_http(s: Seq<char>) -> bool {
    s.len() >= 7 && s.subrange(0, 7) == http_prefix()
}

/// The position of the first occurrence of `c` in `s`, if any.
pub open spec fn first_pos(s: Seq<char>, c: char) -> Option<int>
    decreases s.len(),
{
    if s.len() == 0 {
        None
    } else if s[0] == c {
        Some(0int)
    } else {
        match first_pos(s.subrange(1, s.len() as int), c) {
            Some(i) => Some(i + 1),
            None => None,
        }
    }
}

/// `first_pos(s, c)` returns the least index holding `c`, or `None` when
/// `c` does not occur in `s`.
pub proof fn lemma_first_pos(s: Seq<char>, c: char)
    ensures
        match first_pos(s, c) {
            Some(i) => 0 <= i < s.len() && s[i] == c && (forall|j: int|
                0 <= j < i ==> s[j] != c),
            None => forall|j: int| 0 <= j < s.len() ==> s[j] != c,
        },
    decreases s.len(),
{
    if s.len() > 0 && s[0] != c {
        let t = s.subrange(1, s.len() as int);
        lemma_first_pos(t, c);
        assert(forall|j: int| 1 <= j < s.len() ==> s[j] == t[j - 1]);
        match first_pos(t, c) {
            Some(i) => {
                assert(s[i + 1] == t[i]);
            },
            None => {},
        }
    }
}

/// The text following the `"http://"` prefix.
pub open spec fn after_scheme(s: Seq<char>) -> Seq<char> {
    s.subrange(7, s.len() as int)
}

/// The authority: the text after the scheme up to (excluding) the first
/// `/`, or all of it when no `/` is present.
pub open spec fn authority_of(s: Seq<char>) -> Seq<char> {
    let a = after_scheme(s);
    match first_pos(a, '/') {
        Some(i) => a.subrange(0, i),
        None => a,
    }
}

/// The text after the first `/` that follows the scheme, or `None` when no
/// `/` is present there.
pub open spec fn rest_of(s: Seq<char>) -> Option<Seq<char>> {
    let a = after_scheme(s);
    match first_pos(a, '/') {
        Some(i) => Some(a.subrange(i + 1, a.len() as int)),
        None => None,
    }
}

/// The host: the authority up to (excluding) its first `:`, or the whole
/// authority when it has no `:`.
pub open spec fn host_of(s: Seq<char>) -> Seq<char> {
    let auth = authority_of(s);
    match first_pos(auth, ':') {
        Some(i) => auth.subrange(0, i),
        None => auth,
    }
}

/// The port used when the authority names none.
pub open spec fn default_port() -> Seq<char> {
    seq!['8', '0']
}

/// The port: the authority after its first `:`, or `"80"` when it has no
/// `:`.
pub open spec fn port_of(s: Seq<char>) -> Seq<char> {
    let auth = authority_of(s);
    match first_pos(auth, ':') {
        Some(i) => auth.subrange(i + 1, auth.len() as int),
        None => default_port(),
    }
}

/// The path: the rest up to (excluding) its first `?`, or the whole rest
/// when it has no `?`; empty when there is no rest.
pub open spec fn path_of(s: Seq<char>) -> Seq<char> {
    match rest_of(s) {
        Some(r) => match first_pos(r, '?') {
            Some(i) => r.subrange(0, i),
            None => r,
        },
        None => Seq::empty(),
    }
}

/// The searchpart: the rest after its first `?`; empty when there is no
/// rest or the rest has no `?`.
pub open spec fn searchpart_of(s: Seq<char>) -> Seq<char> {
    match rest_of(s) {
        Some(r) => match first_pos(r, '?') {
            Some(i) => r.subrange(i + 1, r.len() as int),
            None => Seq::empty(),
        },
        None => Seq::empty(),
    }
}

/// The outcome of parsing `s`: its four components in order (host, port,
/// path, searchpart) when `s` carries the `http://` scheme, `None`
/// otherwise. The outcome is a function of the raw text alone.
pub open spec fn parse_outcome(s: Seq<char>) -> Option<
    (Seq<char>, Seq<char>, Seq<char>, Seq<char>),
> {
    if starts_with_http(s) {
        Some((host_of(s), port_of(s), path_of(s), searchpart_of(s)))
    } else {
        None
    }
}

/// The message carried by the error on a raw text without the `http://`
/// scheme.
pub open spec fn scheme_error_message() -> Seq<char> {
    "http:// から始まるURLを指定してください"@
}

/// Finds the first occurrence of `c` in `s`, scanning left to right.
fn find_char(s: &str, c: char) -> (r: Option<usize>)
    ensures
        match r {
            Some(i) => i < s@.len() && s@[i as int] == c && (forall|j: int|
                0 <= j < i ==> s@[j] != c) && first_pos(s@, c) == Some(i as int),
            None => (forall|j: int| 0 <= j < s@.len() ==> s@[j] != c)
                && first_pos(s@, c) is None,
        },
{
    let n: usize = s.unicode_len();
    let mut i: usize = 0;
    while i < n
        invariant
            n == s@.len(),
            i <= n,
            forall|j: int| 0 <= j < i ==> s@[j] != c,
        decreases n - i,
    {
        if s.get_char(i) == c {
            proof {
                lemma_first_pos(s@, c);
            }
            return Some(i);
        }
        i = i + 1;
    }
    proof {
        lemma_first_pos(s@, c);
    }
    None
}

impl Url {
    /// Builds a fresh record over `url`, with all derived components empty.
    pub fn new(url: String) -> (r: Self)
        ensures
            r.url@ == url@,
            r.host@ == Seq::<char>::empty(),
            r.port@ == Seq::<char>::empty(),
            r.path@ == Seq::<char>::empty(),
            r.searchpart@ == Seq::<char>::empty(),
    {
        Self {
            url,
            host: String::new(),
            port: String::new(),
            path: String::new(),
            searchpart: String::new(),
        }
    }

    /// Whether the raw text begins with the literal `"http://"`.
    fn is_http(&self) -> (b: bool)
        ensures
            b == starts_with_http(self.url@),
    {
        let s: &str = self.url.as_str();
        let n: usize = s.unicode_len();
        if n < 7 {
            return false;
        }
        let b = s.get_char(0) == 'h' && s.get_char(1) == 't' && s.get_char(2) == 't'
            && s.get_char(3) == 'p' && s.get_char(4) == ':' && s.get_char(5) == '/'
            && s.get_char(6) == '/';
        proof {
            if b {
                assert(self.url@.subrange(0, 7) =~= http_prefix());
            } else if self.url@.subrange(0, 7) == http_prefix() {
                assert(forall|j: int|
                    0 <= j < 7 ==> self.url@[j] == #[trigger] self.url@.subrange(0, 7)[j]);
            }
        }
        b
    }

    /// Recomputes the host component from the raw text.
    fn extract_host(&self) -> (r: String)
        requires
            starts_with_http(self.url@),
        ensures
            r@ == host_of(self.url@),
    {
        let s: &str = self.url.as_str();
        let n: usize = s.unicode_len();
        let after: &str = s.substring_char(7, n);
        let authority: &str = match find_char(after, '/') {
            Some(i) => after.substring_char(0, i),
            None => after,
        };
        match find_char(authority, ':') {
            Some(j) => authority.substring_char(0, j).to_owned(),
            None => authority.to_owned(),
        }
    }

    /// Recomputes the port component from the raw text.
    fn extract_port(&self) -> (r: String)
        requires
            starts_with_http(self.url@),
        ensures
            r@ == port_of(self.url@),
    {
        let s: &str = self.url.as_str();
        let n: usize = s.unicode_len();
        let after: &str = s.substring_char(7, n);
        let authority: &str = match find_char(after, '/') {
            Some(i) => after.substring_char(0, i),
            None => after,
        };
        match find_char(authority, ':') {
            Some(j) => {
                let m: usize = authority.unicode_len();
                authority.substring_char(j + 1, m).to_owned()
            },
            None => {
                let p = "80".to_owned();
                proof {
                    reveal_strlit("80");
                    assert(p@ =~= default_port());
                }
                p
            },
        }
    }

    /// Recomputes the path component from the raw text.
    fn extract_path(&self) -> (r: String)
        requires
            starts_with_http(self.url@),
        ensures
            r@ == path_of(self.url@),
    {
        let s: &str = self.url.as_str();
        let n: usize = s.unicode_len();
        let after: &str = s.substring_char(7, n);
        match find_char(after, '/') {
            Some(i) => {
                let m: usize = after.unicode_len();
                let rest: &str = after.substring_char(i + 1, m);
                match find_char(rest, '?') {
                    Some(k) => rest.substring_char(0, k).to_owned(),
                    None => rest.to_owned(),
                }
            },
            None => String::new(),
        }
    }

    /// Recomputes the searchpart component from the raw text.
    fn extract_searchpart(&self) -> (r: String)
        requires
            starts_with_http(self.url@),
        ensures
            r@ == searchpart_of(self.url@),
    {
        let s: &str = self.url.as_str();
        let n: usize = s.unicode_len();
        let after: &str = s.substring_char(7, n);
        match find_char(after, '/') {
            Some(i) => {
                let m: usize = after.unicode_len();
                let rest: &str = after.substring_char(i + 1, m);
                match find_char(rest, '?') {
                    Some(k) => {
                        let t: usize = rest.unicode_len();
                        rest.substring_char(k + 1, t).to_owned()
                    },
                    None => String::new(),
                }
            },
            None => String::new(),
        }
    }

    /// Parses the stored raw text.
    ///
    /// When the raw text begins with `"http://"`, all four components are
    /// derived from it in one pass, stored, and returned as a copy of the
    /// whole record. Otherwise the record is left untouched and an error
    /// with a fixed message is returned. Succeeds if and only if the raw
    /// text begins with `"http://"`.
    pub fn parse(&mut self) -> (r: Result<Url, String>)
        ensures
            final(self).url@ == old(self).url@,
            match r {
                Ok(u) => {
                    &&& starts_with_http(old(self).url@)
                    &&& u == *final(self)
                    &&& u.url@ == old(self).url@
                    &&& u.host@ == host_of(old(self).url@)
                    &&& u.port@ == port_of(old(self).url@)
                    &&& u.path@ == path_of(old(self).url@)
                    &&& u.searchpart@ == searchpart_of(old(self).url@)
                },
                Err(e) => {
                    &&& !starts_with_http(old(self).url@)
                    &&& e@ == scheme_error_message()
                    &&& *final(self) == *old(self)
                },
            },
    {
        if !self.is_http() {
            return Err("http:// から始まるURLを指定してください".to_owned());
        }
        self.host = self.extract_host();
        self.port = self.extract_port();
        self.path = self.extract_path();
        self.searchpart = self.extract_searchpart();
        Ok(self.clone())
    }

    /// The host component; empty before a successful parse.
    pub fn host(&self) -> (r: String)
        ensures
            r@ == self.host@,
    {
        self.host.clone()
    }

    /// The port component; empty before a successful parse.
    pub fn port(&self) -> (r: String)
        ensures
            r@ == self.port@,
    {
        self.port.clone()
    }

    /// The path component; empty before a successful parse.
    pub fn path(&self) -> (r: String)
        ensures
            r@ == self.path@,
    {
        self.path.clone()
    }

    /// The searchpart component; empty before a successful parse.
    pub fn searchpart(&self) -> (r: String)
        ensures
            r@ == self.searchpart@,
    {
        self.searchpart.clone()
    }

    /// The searchpart component under its alternative name; identical to
    /// [`Url::searchpart`].
    pub fn search_path(&self) -> (r: String)
        ensures
            r@ == self.searchpart@,
    {
        self.searchpart.clone()
    }
}

/// Parsing is idempotent. The outcome of [`Url::parse`] is a function of
/// the raw text alone, and by its contract `parse` never changes the raw
/// text; hence when `second` is the state a first call left behind on
/// `first`, a second call yields the same outcome, success or failure.
pub proof fn lemma_parse_idempotent(first: Url, second: Url)
    requires
        second.url@ == first.url@,
    ensures
        parse_outcome(second.url@) == parse_outcome(first.url@),
{
}

impl Clone for Url {
    /// A field-for-field copy of the record.
    fn clone(&self) -> (r: Self)
        ensures
            r == *self,
    {
        Url {
            url: self.url.clone(),
            host: self.host.clone(),
            port: self.port.clone(),
            path: self.path.clone(),
            searchpart: self.searchpart.clone(),
        }
    }
}

} // verus!
