//! Character-level text utilities: ASCII case folding, whitespace collapsing,
//! truncation by character count, substring search and tokenization.
//!
//! All contracts are stated over `Seq<char>` views. Whitespace and case
//! folding are ASCII-only throughout the crate.

use vstd::prelude::*;

verus! {

/// ASCII whitespace, the separator set used for collapsing and splitting.
pub open spec fn is_ws(c: char) -> bool {
    c == ' ' || c == '\t' || c == '\n' || c == '\r'
}

/// ASCII lower-casing of one character; other characters are unchanged.
pub open spec fn lower_char(c: char) -> char {
    if 'A' <= c && c <= 'Z' {
        ((c as u8) + 32) as char
    } else {
        c
    }
}

/// ASCII lower-casing of a whole sequence.
pub open spec fn to_lower(s: Seq<char>) -> Seq<char> {
    s.map_values(|c: char| lower_char(c))
}

/// ASCII alphanumeric test.
pub open spec fn is_alnum(c: char) -> bool {
    ('0' <= c && c <= '9') || ('a' <= c && c <= 'z') || ('A' <= c && c <= 'Z')
}

pub fn ws_char(c: char) -> (r: bool)
    ensures
        r == is_ws(c),
{
    c == ' ' || c == '\t' || c == '\n' || c == '\r'
}

pub fn lower_char_x(c: char) -> (r: char)
    ensures
        r == lower_char(c),
{
    if 'A' <= c && c <= 'Z' {
        ((c as u8) + 32) as char
    } else {
        c
    }
}

pub fn alnum_char(c: char) -> (r: bool)
    ensures
        r == is_alnum(c),
{
    ('0' <= c && c <= '9') || ('a' <= c && c <= 'z') || ('A' <= c && c <= 'Z')
}

/// Collects the characters of a string slice into a vector.
pub fn to_char_vec(s: &str) -> (v: Vec<char>)
    ensures
        v@ == s@,
{
    let n = s.unicode_len();
    let mut v: Vec<char> = Vec::new();
    let mut i: usize = 0;
    while i < n
        invariant
            i <= n,
            n == s@.len(),
            v@ == s@.subrange(0, i as int),
        decreases n - i,
    {
        v.push(s.get_char(i));
        i = i + 1;
        proof {
            assert(v@ =~= s@.subrange(0, i as int));
        }
    }
    proof {
        assert(v@ =~= s@);
    }
    v
}

/// Relies on String::push: appends the given character to the end of the string.
#[verifier::external_body]
pub(crate) fn push_char(s: &mut String, c: char)
    ensures
        final(s)@ == old(s)@.push(c),
{
    s.push(c)
}

/// Builds a string from a vector of characters.
pub fn chars_to_string(v: &Vec<char>) -> (s: String)
    ensures
        s@ == v@,
{
    let mut s = String::new();
    let mut i: usize = 0;
    while i < v.len()
        invariant
            i <= v@.len(),
            s@ == v@.subrange(0, i as int),
        decreases v@.len() - i,
    {
        push_char(&mut s, v[i]);
        i = i + 1;
        proof {
            assert(s@ =~= v@.subrange(0, i as int));
        }
    }
    proof {
        assert(s@ =~= v@);
    }
    s
}

/// ASCII lower-casing of a string.
pub fn lower_str(s: &str) -> (r: String)
    ensures
        r@ == to_lower(s@),
{
    let v = to_char_vec(s);
    let mut out: Vec<char> = Vec::new();
    let mut i: usize = 0;
    while i < v.len()
        invariant
            i <= v@.len(),
            v@ == s@,
            out@ == to_lower(s@.subrange(0, i as int)),
        decreases v@.len() - i,
    {
        out.push(lower_char_x(v[i]));
        i = i + 1;
        proof {
            assert(out@ =~= to_lower(s@.subrange(0, i as int)));
        }
    }
    proof {
        assert(out@ =~= to_lower(s@));
    }
    chars_to_string(&out)
}

/// State of the whitespace-collapsing scan after the first `i` characters:
/// the output so far, and whether a separating space is pending.
pub open spec fn collapse_state(s: Seq<char>, i: int) -> (Seq<char>, bool)
    decreases i,
{
    if i <= 0 {
        (Seq::empty(), false)
    } else {
        let (acc, pend) = collapse_state(s, i - 1);
        let c = s[i - 1];
        if is_ws(c) {
            (acc, true)
        } else if pend && acc.len() > 0 {
            (acc + seq![' '] + seq![c], false)
        } else {
            (acc.push(c), false)
        }
    }
}

/// Whitespace-collapsed form of a sequence: runs of whitespace become one
/// space, and leading and trailing whitespace is dropped.
pub open spec fn collapse_ws(s: Seq<char>) -> Seq<char> {
    collapse_state(s, s.len() as int).0
}

/// Collapses whitespace: interior runs become a single space, ends are trimmed.
pub fn normalize_whitespace(s: &str) -> (r: String)
    ensures
        r@ == collapse_ws(s@),
{
    let v = to_char_vec(s);
    let mut out: Vec<char> = Vec::new();
    let mut pending: bool = false;
    let mut i: usize = 0;
    while i < v.len()
        invariant
            i <= v@.len(),
            v@ == s@,
            (out@, pending) == collapse_state(s@, i as int),
        decreases v@.len() - i,
    {
        let c = v[i];
        if ws_char(c) {
            pending = true;
        } else if pending && out.len() > 0 {
            out.push(' ');
            out.push(c);
            pending = false;
        } else {
            out.push(c);
            pending = false;
        }
        i = i + 1;
    }
    chars_to_string(&out)
}

/// The first `n` characters of `s`, or all of `s` if it is shorter.
pub open spec fn truncated(s: Seq<char>, n: int) -> Seq<char> {
    if s.len() <= n {
        s
    } else {
        s.subrange(0, n)
    }
}

/// Truncates to at most `n` characters.
pub fn truncate_chars(s: &str, n: usize) -> (r: String)
    ensures
        r@ == truncated(s@, n as int),
{
    let len = s.unicode_len();
    if len <= n {
        s.to_owned()
    } else {
        s.substring_char(0, n).to_owned()
    }
}

/// `n` occurs as a contiguous subsequence of `h` starting at `i`.
pub open spec fn has_sub_at(h: Seq<char>, n: Seq<char>, i: int) -> bool {
    0 <= i && i + n.len() <= h.len() && h.subrange(i, i + n.len()) == n
}

/// `n` occurs somewhere as a contiguous subsequence of `h`.
/// The empty sequence occurs in every sequence.
pub open spec fn has_sub(h: Seq<char>, n: Seq<char>) -> bool {
    exists|i: int| has_sub_at(h, n, i)
}

fn match_at(h: &Vec<char>, n: &Vec<char>, i: usize) -> (r: bool)
    requires
        i + n@.len() <= h@.len(),
    ensures
        r == has_sub_at(h@, n@, i as int),
{
    let hl = h.len();
    let nl = n.len();
    let mut j: usize = 0;
    while j < nl
        invariant
            j <= nl,
            nl == n@.len(),
            hl == h@.len(),
            i + n@.len() <= h@.len(),
            forall|k: int| 0 <= k < j ==> h@[i + k] == n@[k],
        decreases nl - j,
    {
        if h[i + j] != n[j] {
            proof {
                assert(h@.subrange(i as int, i + n@.len()) != n@) by {
                    assert(h@.subrange(i as int, i + n@.len())[j as int] != n@[j as int]);
                }
            }
            return false;
        }
        j = j + 1;
    }
    proof {
        assert(h@.subrange(i as int, i + n@.len()) =~= n@);
    }
    true
}

/// Naive substring search over character vectors.
pub fn contains_chars(h: &Vec<char>, n: &Vec<char>) -> (r: bool)
    ensures
        r == has_sub(h@, n@),
{
    if n.len() == 0 {
        proof {
            assert(h@.subrange(0, 0) =~= n@);
            assert(has_sub_at(h@, n@, 0));
        }
        return true;
    }
    if n.len() > h.len() {
        proof {
            assert(forall|i: int| !has_sub_at(h@, n@, i));
        }
        return false;
    }
    let mut i: usize = 0;
    let last = h.len() - n.len();
    while i <= last
        invariant
            i <= last + 1,
            last == h@.len() - n@.len(),
            1 <= n@.len() <= h@.len(),
            last < usize::MAX,
            forall|k: int| 0 <= k < i ==> !has_sub_at(h@, n@, k),
        decreases last - i + 1,
    {
        if match_at(h, n, i) {
            return true;
        }
        i = i + 1;
    }
    proof {
        assert(forall|k: int| !has_sub_at(h@, n@, k));
    }
    false
}

/// Substring test on string slices.
pub fn str_contains(h: &str, n: &str) -> (r: bool)
    ensures
        r == has_sub(h@, n@),
{
    let hv = to_char_vec(h);
    let nv = to_char_vec(n);
    contains_chars(&hv, &nv)
}

/// Equality of string slices, by their character sequences.
pub fn str_eq(a: &str, b: &str) -> (r: bool)
    ensures
        r == (a@ == b@),
{
    let x = a.to_owned();
    let y = b.to_owned();
    x == y
}

/// `s` begins with `p`.
pub open spec fn starts_with(s: Seq<char>, p: Seq<char>) -> bool {
    p.len() <= s.len() && s.subrange(0, p.len() as int) == p
}

pub fn str_starts_with(s: &str, p: &str) -> (r: bool)
    ensures
        r == starts_with(s@, p@),
{
    let sv = to_char_vec(s);
    let pv = to_char_vec(p);
    if pv.len() > sv.len() {
        return false;
    }
    let r = match_at(&sv, &pv, 0);
    proof {
        if r {
            assert(s@.subrange(0, p@.len() as int) == p@);
        }
    }
    r
}

/// Concatenation of two string slices.
pub fn concat_str(a: &str, b: &str) -> (r: String)
    ensures
        r@ == a@ + b@,
{
    let mut s = a.to_owned();
    s.append(b);
    s
}

/// Index of the first occurrence of `c` in `s` at or after `i`, or `-1`
/// if there is none.
pub open spec fn find_from(s: Seq<char>, c: char, i: int) -> int
    decreases s.len() - i,
{
    if i < 0 || i >= s.len() {
        -1
    } else if s[i] == c {
        i
    } else {
        find_from(s, c, i + 1)
    }
}

/// State of the whitespace split after the first `i` characters: the tokens
/// completed so far and the token currently being read.
pub open spec fn split_state(s: Seq<char>, i: int) -> (Seq<Seq<char>>, Seq<char>)
    decreases i,
{
    if i <= 0 {
        (Seq::empty(), Seq::empty())
    } else {
        let (toks, cur) = split_state(s, i - 1);
        let c = s[i - 1];
        if is_ws(c) {
            if cur.len() > 0 {
                (toks.push(cur), Seq::empty())
            } else {
                (toks, cur)
            }
        } else {
            (toks, cur.push(c))
        }
    }
}

/// The maximal whitespace-free runs of `s`, in order.
pub open spec fn split_ws(s: Seq<char>) -> Seq<Seq<char>> {
    let (toks, cur) = split_state(s, s.len() as int);
    if cur.len() > 0 {
        toks.push(cur)
    } else {
        toks
    }
}

/// Splits on whitespace; the result contains no empty parts.
pub fn split_whitespace(s: &str) -> (r: Vec<String>)
    ensures
        r.deep_view() == split_ws(s@),
{
    let v = to_char_vec(s);
    let mut toks: Vec<String> = Vec::new();
    let mut cur: Vec<char> = Vec::new();
    let mut i: usize = 0;
    while i < v.len()
        invariant
            i <= v@.len(),
            v@ == s@,
            (toks.deep_view(), cur@) == split_state(s@, i as int),
        decreases v@.len() - i,
    {
        let c = v[i];
        if ws_char(c) {
            if cur.len() > 0 {
                let t = chars_to_string(&cur);
                toks.push(t);
                cur = Vec::new();
                proof {
                    assert(toks.deep_view() =~= split_state(s@, i + 1).0);
                }
            }
        } else {
            cur.push(c);
        }
        i = i + 1;
    }
    if cur.len() > 0 {
        let t = chars_to_string(&cur);
        toks.push(t);
        proof {
            assert(toks.deep_view() =~= split_ws(s@));
        }
    }
    toks
}

/// A token is kept for matching when it has at least three characters and is
/// not a stop word.
pub open spec fn keep_token(t: Seq<char>) -> bool {
    t.len() >= 3 && !is_stopword(t)
}

/// The fixed stop-word list dropped by tokenization.
pub open spec fn is_stopword(t: Seq<char>) -> bool {
    ||| t == "the"@
    ||| t == "a"@
    ||| t == "an"@
    ||| t == "and"@
    ||| t == "or"@
    ||| t == "of"@
    ||| t == "to"@
    ||| t == "for"@
    ||| t == "in"@
    ||| t == "on"@
    ||| t == "is"@
    ||| t == "are"@
    ||| t == "do"@
    ||| t == "did"@
    ||| t == "you"@
    ||| t == "your"@
    ||| t == "my"@
    ||| t == "me"@
    ||| t == "what"@
    ||| t == "who"@
    ||| t == "how"@
    ||| t == "why"@
    ||| t == "about"@
    ||| t == "remember"@
    ||| t == "know"@
}

/// Stop words are common function words that carry no topical signal.
pub fn is_token_stopword(t: &str) -> (r: bool)
    ensures
        r == is_stopword(t@),
{
    str_eq(t, "the") || str_eq(t, "a") || str_eq(t, "an") || str_eq(t, "and") || str_eq(t, "or")
        || str_eq(t, "of") || str_eq(t, "to") || str_eq(t, "for") || str_eq(t, "in")
        || str_eq(t, "on") || str_eq(t, "is") || str_eq(t, "are") || str_eq(t, "do")
        || str_eq(t, "did") || str_eq(t, "you") || str_eq(t, "your") || str_eq(t, "my")
        || str_eq(t, "me") || str_eq(t, "what") || str_eq(t, "who") || str_eq(t, "how")
        || str_eq(t, "why") || str_eq(t, "about") || str_eq(t, "remember") || str_eq(t, "know")
}

/// The subsequence of `ts` whose elements satisfy `keep_token`, in order.
pub open spec fn kept_tokens(ts: Seq<Seq<char>>) -> Seq<Seq<char>>
    decreases ts.len(),
{
    if ts.len() == 0 {
        Seq::empty()
    } else {
        let rest = kept_tokens(ts.drop_last());
        if keep_token(ts.last()) {
            rest.push(ts.last())
        } else {
            rest
        }
    }
}

/// One character of `s`, lower-cased if alphanumeric and blanked otherwise.
pub open spec fn matching_norm(s: Seq<char>) -> Seq<char> {
    s.map_values(|c: char| if is_alnum(c) { lower_char(c) } else { ' ' })
}

/// The matching tokens of `s`: lower-cased alphanumeric runs of length at
/// least three that are not stop words.
pub open spec fn spec_tokenize(s: Seq<char>) -> Seq<Seq<char>> {
    kept_tokens(split_ws(matching_norm(s)))
}

/// Tokenizes free text for matching: alphanumeric runs, lower-cased, with
/// short tokens and stop words dropped.
pub fn tokenize_for_matching(s: &str) -> (r: Vec<String>)
    ensures
        r.deep_view() == spec_tokenize(s@),
{
    let v = to_char_vec(s);
    let mut norm: Vec<char> = Vec::new();
    let mut i: usize = 0;
    while i < v.len()
        invariant
            i <= v@.len(),
            v@ == s@,
            norm@ == matching_norm(s@.subrange(0, i as int)),
        decreases v@.len() - i,
    {
        let c = v[i];
        if alnum_char(c) {
            norm.push(lower_char_x(c));
        } else {
            norm.push(' ');
        }
        i = i + 1;
        proof {
            assert(norm@ =~= matching_norm(s@.subrange(0, i as int)));
        }
    }
    proof {
        assert(s@.subrange(0, s@.len() as int) =~= s@);
    }
    let ns = chars_to_string(&norm);
    let parts = split_whitespace(ns.as_str());
    let mut out: Vec<String> = Vec::new();
    let mut j: usize = 0;
    while j < parts.len()
        invariant
            j <= parts@.len(),
            parts.deep_view() == split_ws(matching_norm(s@)),
            out.deep_view() == kept_tokens(parts.deep_view().subrange(0, j as int)),
        decreases parts@.len() - j,
    {
        let t = &parts[j];
        let keep = t.unicode_len() >= 3 && !is_token_stopword(t.as_str());
        proof {
            assert(parts.deep_view().subrange(0, j + 1).drop_last() =~= parts.deep_view()
                .subrange(0, j as int));
            assert(parts.deep_view().subrange(0, j + 1).last() == parts.deep_view()[j as int]);
            assert(parts.deep_view()[j as int] == parts[j as int]@);
        }
        if keep {
            out.push(t.clone());
            proof {
                assert(out.deep_view() =~= kept_tokens(parts.deep_view().subrange(0, j + 1)));
            }
        }
        j = j + 1;
    }
    proof {
        assert(parts.deep_view().subrange(0, parts.deep_view().len() as int) =~= parts.deep_view());
    }
    out
}

/// Index of the first character of `s` at or after `i` that fails `in_set`;
/// `s.len()` if every later character is in the set.
pub open spec fn scan_while(s: Seq<char>, in_set: spec_fn(char) -> bool, i: int) -> int
    decreases s.len() - i,
{
    if i < 0 || i >= s.len() {
        s.len() as int
    } else if in_set(s[i]) {
        scan_while(s, in_set, i + 1)
    } else {
        i
    }
}

/// Punctuation trimmed from both ends of a remembered fact.
pub open spec fn is_fact_punct(c: char) -> bool {
    c == '.' || c == ',' || c == '!' || c == ';'
}

/// `s` with leading and trailing characters of the set removed: the
/// subrange from the first character outside the set to the last.
pub open spec fn trimmed_set(s: Seq<char>, in_set: spec_fn(char) -> bool) -> Seq<char> {
    let lo = scan_while(s, in_set, 0);
    if lo == s.len() {
        Seq::empty()
    } else {
        let hi = scan_back(s, in_set, s.len() as int);
        s.subrange(lo, hi)
    }
}

/// One past the last character of `s` before `i` that fails `in_set`;
/// `0` if every earlier character is in the set.
pub open spec fn scan_back(s: Seq<char>, in_set: spec_fn(char) -> bool, i: int) -> int
    decreases i,
{
    if i <= 0 || i > s.len() {
        0
    } else if in_set(s[i - 1]) {
        scan_back(s, in_set, i - 1)
    } else {
        i
    }
}

/// Punctuation trimmed around a name introduction.
pub open spec fn is_intro_punct(c: char) -> bool {
    c == '.' || c == ',' || c == '!' || c == '?'
}

/// The whitespace set as a predicate value.
pub open spec fn ws_pred() -> spec_fn(char) -> bool {
    |c: char| is_ws(c)
}

/// `s` with leading and trailing whitespace removed.
pub open spec fn trimmed_ws(s: Seq<char>) -> Seq<char> {
    trimmed_set(s, ws_pred())
}

/// First position past the leading whitespace.
fn ws_scan_fwd(v: &Vec<char>) -> (r: usize)
    ensures
        r as int == scan_while(v@, ws_pred(), 0),
        r <= v@.len(),
        r < v@.len() ==> !is_ws(v@[r as int]),
{
    let mut i: usize = 0;
    while i < v.len()
        invariant
            i <= v@.len(),
            scan_while(v@, ws_pred(), 0) == scan_while(v@, ws_pred(), i as int),
        decreases v@.len() - i,
    {
        if !ws_char(v[i]) {
            return i;
        }
        i = i + 1;
    }
    i
}

/// One past the trailing whitespace.
fn ws_scan_back(v: &Vec<char>) -> (r: usize)
    ensures
        r as int == scan_back(v@, ws_pred(), v@.len() as int),
        r <= v@.len(),
{
    let mut i: usize = v.len();
    while i > 0
        invariant
            i <= v@.len(),
            scan_back(v@, ws_pred(), v@.len() as int) == scan_back(v@, ws_pred(), i as int),
        decreases i,
    {
        if !ws_char(v[i - 1]) {
            return i;
        }
        i = i - 1;
    }
    i
}

/// Removes leading and trailing whitespace.
pub fn trim_ws_str(s: &str) -> (r: String)
    ensures
        r@ == trimmed_ws(s@),
{
    let v = to_char_vec(s);
    let lo = ws_scan_fwd(&v);
    if lo == v.len() {
        return String::new();
    }
    proof {
        assert(ws_pred()(v@[lo as int]) == is_ws(v@[lo as int]));
        lemma_scan_back_le(v@, ws_pred(), v@.len() as int);
        lemma_scan_back_gt(v@, ws_pred(), v@.len() as int, lo as int);
    }
    let hi = ws_scan_back(&v);
    let out = slice_chars(&v, lo, hi);
    chars_to_string(&out)
}

/// The fact-punctuation set as a predicate value, shared by
/// specifications and proofs so that all mentions are one closure.
pub open spec fn fact_punct_pred() -> spec_fn(char) -> bool {
    |c: char| is_fact_punct(c)
}

/// The introduction-punctuation set as a predicate value.
pub open spec fn intro_punct_pred() -> spec_fn(char) -> bool {
    |c: char| is_intro_punct(c)
}

/// A backward scan never goes past its start.
pub proof fn lemma_scan_back_le(s: Seq<char>, in_set: spec_fn(char) -> bool, i: int)
    requires
        0 <= i <= s.len(),
    ensures
        0 <= scan_back(s, in_set, i) <= i,
    decreases i,
{
    if i > 0 && in_set(s[i - 1]) {
        lemma_scan_back_le(s, in_set, i - 1);
    }
}

/// A backward scan stops above any position whose character is outside
/// the set.
pub proof fn lemma_scan_back_gt(s: Seq<char>, in_set: spec_fn(char) -> bool, i: int, lo: int)
    requires
        0 <= lo < i <= s.len(),
        !in_set(s[lo]),
    ensures
        scan_back(s, in_set, i) > lo,
    decreases i,
{
    if in_set(s[i - 1]) {
        lemma_scan_back_gt(s, in_set, i - 1, lo);
    }
}

/// The characters of `v` from `a` to `b`.
pub fn slice_chars(v: &Vec<char>, a: usize, b: usize) -> (r: Vec<char>)
    requires
        a <= b <= v@.len(),
    ensures
        r@ == v@.subrange(a as int, b as int),
{
    let mut out: Vec<char> = Vec::new();
    let mut i = a;
    while i < b
        invariant
            a <= i <= b <= v@.len(),
            out@ == v@.subrange(a as int, i as int),
        decreases b - i,
    {
        out.push(v[i]);
        i = i + 1;
        proof {
            assert(out@ =~= v@.subrange(a as int, i as int));
        }
    }
    out
}

/// `parts` joined by `sep`.
pub open spec fn joined(parts: Seq<Seq<char>>, sep: Seq<char>) -> Seq<char>
    decreases parts.len(),
{
    if parts.len() == 0 {
        Seq::empty()
    } else if parts.len() == 1 {
        parts[0]
    } else {
        joined(parts.drop_last(), sep) + sep + parts.last()
    }
}

/// Joins strings with a separator.
pub fn join_with(parts: &Vec<String>, sep: &str) -> (r: String)
    ensures
        r@ == joined(parts.deep_view(), sep@),
{
    let mut out = String::new();
    let mut i: usize = 0;
    while i < parts.len()
        invariant
            i <= parts@.len(),
            out@ == joined(parts.deep_view().subrange(0, i as int), sep@),
        decreases parts@.len() - i,
    {
        if i > 0 {
            out.append(sep);
        }
        out.append(parts[i].as_str());
        i = i + 1;
        proof {
            let pre = parts.deep_view().subrange(0, i as int);
            assert(pre.drop_last() =~= parts.deep_view().subrange(0, i - 1));
            assert(pre.last() == parts.deep_view()[i - 1]);
            if i == 1 {
                assert(out@ =~= joined(pre, sep@));
            } else {
                assert(out@ =~= joined(pre, sep@));
            }
        }
    }
    proof {
        assert(parts.deep_view().subrange(0, parts.deep_view().len() as int) =~= parts.deep_view());
    }
    out
}

/// Index of the first occurrence of `n` in `h` at or after `i`, or -1.
pub open spec fn find_sub_from(h: Seq<char>, n: Seq<char>, i: int) -> int
    decreases h.len() + 1 - i,
{
    if i < 0 || i + n.len() > h.len() {
        -1
    } else if h.subrange(i, i + n.len()) == n {
        i
    } else {
        find_sub_from(h, n, i + 1)
    }
}

/// First occurrence of `n` in `h`, if any.
pub fn find_first_sub(h: &Vec<char>, n: &Vec<char>) -> (r: Option<usize>)
    ensures
        match r {
            Option::Some(j) => find_sub_from(h@, n@, 0) == j as int && j + n@.len() <= h@.len(),
            Option::None => find_sub_from(h@, n@, 0) == -1,
        },
{
    if n.len() == 0 {
        proof {
            assert(h@.subrange(0, 0) =~= n@);
        }
        return Option::Some(0);
    }
    if n.len() > h.len() {
        return Option::None;
    }
    let mut i: usize = 0;
    let last = h.len() - n.len();
    while i <= last
        invariant
            i <= last + 1,
            last == h@.len() - n@.len(),
            1 <= n@.len() <= h@.len(),
            last < usize::MAX,
            find_sub_from(h@, n@, 0) == find_sub_from(h@, n@, i as int),
        decreases last - i + 1,
    {
        if match_at(h, n, i) {
            return Option::Some(i);
        }
        i = i + 1;
    }
    Option::None
}

/// `s` with every comma removed.
pub open spec fn without_commas(s: Seq<char>) -> Seq<char>
    decreases s.len(),
{
    if s.len() == 0 {
        Seq::empty()
    } else {
        let rest = without_commas(s.drop_last());
        if s.last() == ',' {
            rest
        } else {
            rest.push(s.last())
        }
    }
}

/// Removes every comma.
pub fn remove_commas(s: &str) -> (r: String)
    ensures
        r@ == without_commas(s@),
{
    let v = to_char_vec(s);
    let mut out: Vec<char> = Vec::new();
    let mut i: usize = 0;
    while i < v.len()
        invariant
            i <= v@.len(),
            v@ == s@,
            out@ == without_commas(s@.subrange(0, i as int)),
        decreases v@.len() - i,
    {
        proof {
            let pre = s@.subrange(0, i + 1);
            assert(pre.drop_last() =~= s@.subrange(0, i as int));
            assert(pre.last() == s@[i as int]);
        }
        if v[i] != ',' {
            out.push(v[i]);
        }
        i = i + 1;
    }
    proof {
        assert(s@.subrange(0, s@.len() as int) =~= s@);
    }
    chars_to_string(&out)
}

/// ASCII upper-casing of one character.
pub open spec fn upper_char(c: char) -> char {
    if 'a' <= c && c <= 'z' {
        ((c as u8) - 32) as char
    } else {
        c
    }
}

pub fn upper_char_x(c: char) -> (r: char)
    ensures
        r == upper_char(c),
{
    if 'a' <= c && c <= 'z' {
        ((c as u8) - 32) as char
    } else {
        c
    }
}

/// First occurrence of `c` in `v`, if any.
pub fn find_char_in(v: &Vec<char>, c: char) -> (r: Option<usize>)
    ensures
        match r {
            Option::Some(j) => find_from(v@, c, 0) == j as int && j < v@.len(),
            Option::None => find_from(v@, c, 0) == -1,
        },
{
    let mut i: usize = 0;
    while i < v.len()
        invariant
            i <= v@.len(),
            find_from(v@, c, 0) == find_from(v@, c, i as int),
        decreases v@.len() - i,
    {
        if v[i] == c {
            return Option::Some(i);
        }
        i = i + 1;
    }
    Option::None
}

/// The decimal digit character of `d`.
pub open spec fn digit_char(d: int) -> char
    recommends
        0 <= d <= 9,
{
    (('0' as u8) + d) as char
}

/// The decimal rendering of `n`, most significant digit first, without
/// leading zeros (`0` renders as `0`).
pub open spec fn dec_digits(n: int) -> Seq<char>
    decreases n,
{
    if n < 10 {
        seq![digit_char(n)]
    } else {
        dec_digits(n / 10).push(digit_char(n % 10))
    }
}

/// Renders an unsigned number in decimal.
pub fn u64_to_string(n: u64) -> (r: String)
    ensures
        r@ == dec_digits(n as int),
    decreases n,
{
    if n < 10 {
        let mut s = String::new();
        push_char(&mut s, (('0' as u8) + (n as u8)) as char);
        proof {
            assert(s@ =~= dec_digits(n as int));
        }
        s
    } else {
        let mut s = u64_to_string(n / 10);
        push_char(&mut s, (('0' as u8) + ((n % 10) as u8)) as char);
        s
    }
}

/// ASCII upper-casing of a whole sequence.
pub open spec fn to_upper(s: Seq<char>) -> Seq<char> {
    s.map_values(|c: char| upper_char(c))
}

/// ASCII upper-casing of a string.
pub fn upper_str(s: &str) -> (r: String)
    ensures
        r@ == to_upper(s@),
{
    let v = to_char_vec(s);
    let mut out: Vec<char> = Vec::new();
    let mut i: usize = 0;
    while i < v.len()
        invariant
            i <= v@.len(),
            v@ == s@,
            out@ == to_upper(s@.subrange(0, i as int)),
        decreases v@.len() - i,
    {
        out.push(upper_char_x(v[i]));
        i = i + 1;
        proof {
            assert(out@ =~= to_upper(s@.subrange(0, i as int)));
        }
    }
    proof {
        assert(out@ =~= to_upper(s@));
    }
    chars_to_string(&out)
}

} // verus!
