//! URL parsing and normalization.
//!
//! A URL is split into scheme, host, optional port, path and optional query;
//! the fragment is discarded at parse time. Normalization lower-cases the
//! scheme and host, drops a default port (80 for http, 443 for https),
//! strips one trailing slash except on the bare root path, and preserves
//! the query string. The normalized form is the visited-set key of the
//! crawler and the input of the node content hash.
//!
//! The grammar is deliberately small: no userinfo part and no IPv6 host
//! brackets; the port is any run of digits, compared after stripping
//! leading zeros.

use vstd::prelude::*;

use crate::text::{
    find_from, str_eq, to_char_vec, to_lower, chars_to_string,
};

verus! {

/// Characters that end the authority part of a URL.
pub open spec fn is_authority_end(c: char) -> bool {
    c == '/' || c == '?' || c == '#'
}

/// Index of the first authority-ending character at or after `i`, or
/// `s.len()` if there is none.
pub open spec fn find_authority_end(s: Seq<char>, i: int) -> int
    decreases s.len() - i,
{
    if i < 0 || i >= s.len() {
        s.len() as int
    } else if is_authority_end(s[i]) {
        i
    } else {
        find_authority_end(s, i + 1)
    }
}

/// Every character is a decimal digit.
pub open spec fn all_digits(s: Seq<char>) -> bool {
    forall|i: int| 0 <= i < s.len() ==> '0' <= #[trigger] s[i] && s[i] <= '9'
}

/// Index of the first character at or after `i` that is not `'0'`, or
/// `s.len()` if all are zeros.
pub open spec fn first_nonzero(s: Seq<char>, i: int) -> int
    decreases s.len() - i,
{
    if i < 0 || i >= s.len() {
        s.len() as int
    } else if s[i] == '0' {
        first_nonzero(s, i + 1)
    } else {
        i
    }
}

/// `s` with leading zeros removed; a run of only zeros becomes `"0"`.
pub open spec fn strip_zeros(s: Seq<char>) -> Seq<char> {
    let i = first_nonzero(s, 0);
    if i == s.len() {
        seq!['0']
    } else {
        s.subrange(i, s.len() as int)
    }
}

/// The components of a parsed URL, at the specification level.
pub struct UrlView {
    pub scheme: Seq<char>,
    pub host: Seq<char>,
    pub port: Option<Seq<char>>,
    pub path: Seq<char>,
    pub query: Option<Seq<char>>,
}

/// The components of a parsed URL. The fragment is dropped at parse time;
/// a present port is kept as its digits with leading zeros stripped.
pub struct Url {
    pub scheme: String,
    pub host: String,
    pub port: Option<String>,
    pub path: String,
    pub query: Option<String>,
}

impl View for Url {
    type V = UrlView;

    open spec fn view(&self) -> UrlView {
        UrlView {
            scheme: self.scheme@,
            host: self.host@,
            port: match self.port {
                Option::Some(p) => Option::Some(p@),
                Option::None => Option::None,
            },
            path: self.path@,
            query: match self.query {
                Option::Some(q) => Option::Some(q@),
                Option::None => Option::None,
            },
        }
    }
}

/// Parse of `s` as `scheme "://" host [":" port] path ["?" query] ["#" ...]`.
/// `None` when there is no `"://"`, the scheme or host is empty, or the
/// port contains a non-digit.
pub open spec fn spec_parse_url(s: Seq<char>) -> Option<UrlView> {
    let p = find_from(s, ':', 0);
    if p < 1 {
        Option::None
    } else if s.len() < p + 3 || s[p + 1] != '/' || s[p + 2] != '/' {
        Option::None
    } else {
        let rest = s.subrange(p + 3, s.len() as int);
        let ae = find_authority_end(rest, 0);
        let auth = rest.subrange(0, ae);
        let tail = rest.subrange(ae, rest.len() as int);
        let hp = find_from(auth, ':', 0);
        let host = if hp < 0 { auth } else { auth.subrange(0, hp) };
        let portstr = if hp < 0 { Seq::<char>::empty() } else {
            auth.subrange(hp + 1, auth.len() as int)
        };
        if host.len() == 0 {
            Option::None
        } else if hp >= 0 && portstr.len() > 0 && !all_digits(portstr) {
            Option::None
        } else {
            let port = if hp >= 0 && portstr.len() > 0 {
                Option::Some(strip_zeros(portstr))
            } else {
                Option::None
            };
            let f = find_from(tail, '#', 0);
            let tail2 = if f < 0 { tail } else { tail.subrange(0, f) };
            let q = find_from(tail2, '?', 0);
            let path = if q < 0 { tail2 } else { tail2.subrange(0, q) };
            let query = if q < 0 { Option::None } else {
                Option::Some(tail2.subrange(q + 1, tail2.len() as int))
            };
            Option::Some(UrlView { scheme: s.subrange(0, p), host, port, path, query })
        }
    }
}

/// The port is the default of the (lower-cased) scheme.
pub open spec fn default_port(scheme_l: Seq<char>, port: Seq<char>) -> bool {
    (scheme_l == "http"@ && port == "80"@) || (scheme_l == "https"@ && port == "443"@)
}

/// An empty path becomes `"/"`; one trailing slash is stripped from any
/// longer path; the bare root path keeps its slash.
pub open spec fn norm_path(p: Seq<char>) -> Seq<char> {
    if p.len() == 0 {
        seq!['/']
    } else if p.len() > 1 && p.last() == '/' {
        p.drop_last()
    } else {
        p
    }
}

/// The normalized rendering of parsed components.
pub open spec fn normalized_url(u: UrlView) -> Seq<char> {
    let sch = to_lower(u.scheme);
    let host = to_lower(u.host);
    let portpart = match u.port {
        Option::Some(p) => if default_port(sch, p) {
            Seq::<char>::empty()
        } else {
            seq![':'] + p
        },
        Option::None => Seq::<char>::empty(),
    };
    let qpart = match u.query {
        Option::Some(q) => seq!['?'] + q,
        Option::None => Seq::<char>::empty(),
    };
    sch + "://"@ + host + portpart + norm_path(u.path) + qpart
}

/// Normalization succeeds exactly on parseable URLs whose scheme is http or
/// https, and then yields the normalized rendering.
pub open spec fn spec_normalize(s: Seq<char>) -> Option<Seq<char>> {
    match spec_parse_url(s) {
        Option::None => Option::None,
        Option::Some(u) => {
            let sch = to_lower(u.scheme);
            if sch == "http"@ || sch == "https"@ {
                Option::Some(normalized_url(u))
            } else {
                Option::None
            }
        },
    }
}

fn find_char_from(v: &Vec<char>, c: char, from: usize) -> (r: Option<usize>)
    requires
        from <= v@.len(),
    ensures
        match r {
            Option::Some(j) => find_from(v@, c, from as int) == j as int && j < v@.len(),
            Option::None => find_from(v@, c, from as int) == -1,
        },
{
    let mut i = from;
    while i < v.len()
        invariant
            from <= i <= v@.len(),
            find_from(v@, c, from as int) == find_from(v@, c, i as int),
        decreases v@.len() - i,
    {
        if v[i] == c {
            return Option::Some(i);
        }
        i = i + 1;
    }
    Option::None
}

fn find_auth_end(v: &Vec<char>) -> (r: usize)
    ensures
        r as int == find_authority_end(v@, 0),
        r <= v@.len(),
{
    let mut i: usize = 0;
    while i < v.len()
        invariant
            i <= v@.len(),
            find_authority_end(v@, 0) == find_authority_end(v@, i as int),
        decreases v@.len() - i,
    {
        let c = v[i];
        if c == '/' || c == '?' || c == '#' {
            return i;
        }
        i = i + 1;
    }
    i
}

fn slice_range(v: &Vec<char>, a: usize, b: usize) -> (r: Vec<char>)
    requires
        a <= b <= v@.len(),
    ensures
        r@ == v@.subrange(a as int, b as int),
{
    let mut out: Vec<char> = Vec::new();
    let mut i = a;
    while i < b
        invariant
            a <= i <= b <= v@.len(),
            out@ == v@.subrange(a as int, i as int),
        decreases b - i,
    {
        out.push(v[i]);
        i = i + 1;
        proof {
            assert(out@ =~= v@.subrange(a as int, i as int));
        }
    }
    out
}

fn digits_only(v: &Vec<char>) -> (r: bool)
    ensures
        r == all_digits(v@),
{
    let mut i: usize = 0;
    while i < v.len()
        invariant
            i <= v@.len(),
            forall|k: int| 0 <= k < i ==> '0' <= #[trigger] v@[k] && v@[k] <= '9',
        decreases v@.len() - i,
    {
        let c = v[i];
        if !('0' <= c && c <= '9') {
            return false;
        }
        i = i + 1;
    }
    true
}

fn first_nz(v: &Vec<char>) -> (r: usize)
    ensures
        r as int == first_nonzero(v@, 0),
        r <= v@.len(),
{
    let mut i: usize = 0;
    while i < v.len()
        invariant
            i <= v@.len(),
            first_nonzero(v@, 0) == first_nonzero(v@, i as int),
        decreases v@.len() - i,
    {
        if v[i] != '0' {
            return i;
        }
        i = i + 1;
    }
    i
}

fn strip_zeros_x(v: &Vec<char>) -> (r: Vec<char>)
    ensures
        r@ == strip_zeros(v@),
{
    let i = first_nz(v);
    if i == v.len() {
        let mut out: Vec<char> = Vec::new();
        out.push('0');
        proof {
            assert(out@ =~= strip_zeros(v@));
        }
        out
    } else {
        slice_range(v, i, v.len())
    }
}

/// Parses a URL string into its components; the fragment is discarded.
pub fn parse_url(s: &str) -> (r: Option<Url>)
    ensures
        match r {
            Option::Some(u) => spec_parse_url(s@) == Option::Some(u@),
            Option::None => spec_parse_url(s@) is None,
        },
{
    let v = to_char_vec(s);
    let p = match find_char_from(&v, ':', 0) {
        Option::Some(p) => p,
        Option::None => {
            return Option::None;
        },
    };
    if p < 1 {
        return Option::None;
    }
    if v.len() - (p + 1) < 2 || v[p + 1] != '/' || v[p + 2] != '/' {
        return Option::None;
    }
    let scheme = slice_range(&v, 0, p);
    let rest = slice_range(&v, p + 3, v.len());
    let ae = find_auth_end(&rest);
    let auth = slice_range(&rest, 0, ae);
    let tail = slice_range(&rest, ae, rest.len());
    let hp = find_char_from(&auth, ':', 0);
    let (host, portstr): (Vec<char>, Vec<char>) = match hp {
        Option::Some(h) => (slice_range(&auth, 0, h), slice_range(&auth, h + 1, auth.len())),
        Option::None => (auth, Vec::new()),
    };
    if host.len() == 0 {
        return Option::None;
    }
    let has_port = hp.is_some() && portstr.len() > 0;
    if has_port && !digits_only(&portstr) {
        return Option::None;
    }
    let port: Option<String> = if has_port {
        let stripped = strip_zeros_x(&portstr);
        Option::Some(chars_to_string(&stripped))
    } else {
        Option::None
    };
    let f = find_char_from(&tail, '#', 0);
    let tail2 = match f {
        Option::Some(fi) => slice_range(&tail, 0, fi),
        Option::None => tail,
    };
    let q = find_char_from(&tail2, '?', 0);
    let (path, query): (Vec<char>, Option<String>) = match q {
        Option::Some(qi) => {
            let qs = slice_range(&tail2, qi + 1, tail2.len());
            (slice_range(&tail2, 0, qi), Option::Some(chars_to_string(&qs)))
        },
        Option::None => (tail2, Option::None),
    };
    let u = Url {
        scheme: chars_to_string(&scheme),
        host: chars_to_string(&host),
        port,
        path: chars_to_string(&path),
        query,
    };
    Option::Some(u)
}

/// Renders the normalized form of parsed components.
pub fn render_normalized(u: &Url) -> (r: String)
    ensures
        r@ == normalized_url(u@),
{
    let mut out = crate::text::lower_str(u.scheme.as_str());
    out.append("://");
    let host_l = crate::text::lower_str(u.host.as_str());
    out.append(host_l.as_str());
    match &u.port {
        Option::Some(p) => {
            let sch = crate::text::lower_str(u.scheme.as_str());
            let is_default = (str_eq(sch.as_str(), "http") && str_eq(p.as_str(), "80")) || (str_eq(
                sch.as_str(),
                "https",
            ) && str_eq(p.as_str(), "443"));
            if !is_default {
                crate::text::push_char(&mut out, ':');
                out.append(p.as_str());
            }
        },
        Option::None => {},
    }
    let pv = to_char_vec(u.path.as_str());
    if pv.len() == 0 {
        crate::text::push_char(&mut out, '/');
    } else if pv.len() > 1 && pv[pv.len() - 1] == '/' {
        let trimmed = slice_range(&pv, 0, pv.len() - 1);
        let ts = chars_to_string(&trimmed);
        out.append(ts.as_str());
        proof {
            assert(trimmed@ =~= norm_path(u.path@));
        }
    } else {
        out.append(u.path.as_str());
    }
    match &u.query {
        Option::Some(q) => {
            crate::text::push_char(&mut out, '?');
            out.append(q.as_str());
        },
        Option::None => {},
    }
    out
}

/// Normalizes a URL string; `None` exactly when the string does not parse
/// or its scheme is neither http nor https.
pub fn normalize_url(s: &str) -> (r: Option<String>)
    ensures
        match r {
            Option::Some(n) => spec_normalize(s@) == Option::Some(n@),
            Option::None => spec_normalize(s@) is None,
        },
{
    match parse_url(s) {
        Option::None => Option::None,
        Option::Some(u) => {
            let sch = crate::text::lower_str(u.scheme.as_str());
            if str_eq(sch.as_str(), "http") || str_eq(sch.as_str(), "https") {
                Option::Some(render_normalized(&u))
            } else {
                Option::None
            }
        },
    }
}

} // verus!
