//! The utility plugins' decision and computation rules.
//!
//! Each plugin decides from the prompt alone whether it applies and what
//! it computes or asks for. Work that needs the outside world — the
//! clock, the network, the system, randomness, expression evaluation —
//! is requested as data from the caller; everything else is computed
//! here.

use vstd::prelude::*;

use crate::codecs::{
    b64_decode, b64_encode, base64_decoded, blake3_hex, blake3_hex_of, bytes_to_string_lossy,
    md5_hex, md5_hex_of, sha256_hex, sha256_hex_of, utf8_lossy_of,
};
use crate::text::{
    dec_digits, has_sub, is_ws, joined, lower_str, split_whitespace, split_ws,
    starts_with, str_contains, str_eq, str_starts_with, to_char_vec, to_lower, trim_ws_str, trimmed_ws, truncate_chars, truncated, u64_to_string, chars_to_string,
};

verus! {

/// The first email-shaped substring of a text, if any.
pub uninterp spec fn email_in(s: Seq<char>) -> Option<Seq<char>>;

/// Relies on regex::Regex::find with a fixed email pattern: the first
/// match is determined by the text alone; nothing matches exactly when
/// the pattern finds nothing.
#[verifier::external_body]
pub(crate) fn find_email(text: &str) -> (r: Option<String>)
    ensures
        match r {
            Option::Some(m) => email_in(text@) == Option::Some(m@),
            Option::None => email_in(text@) is None,
        },
{
    let re = match regex::Regex::new(r"[A-Za-z0-9._%+-]+@[A-Za-z0-9.-]+\.[A-Za-z]{2,}") {
        Ok(re) => re,
        Err(_) => return Option::None,
    };
    re.find(text).map(|m| m.as_str().to_owned())
}

/// The pig-latin form of one word: unchanged empty, `word-ay` when it
/// begins with a vowel, else the word without its first letter, a dash,
/// the first letter and `ay`.
pub open spec fn spec_pig_latin(w: Seq<char>) -> Seq<char> {
    let t = trimmed_ws(w);
    if t.len() == 0 {
        Seq::empty()
    } else if is_vowel(t[0]) {
        t + "-ay"@
    } else {
        t.skip(1) + "-"@ + seq![t[0]] + "ay"@
    }
}

/// An ASCII vowel, either case.
pub open spec fn is_vowel(c: char) -> bool {
    c == 'a' || c == 'e' || c == 'i' || c == 'o' || c == 'u' || c == 'A' || c == 'E' || c == 'I'
        || c == 'O' || c == 'U'
}

/// Translates one word into pig latin.
pub fn pig_latin_word(w: &str) -> (r: String)
    ensures
        r@ == spec_pig_latin(w@),
{
    let t = trim_ws_str(w);
    let v = to_char_vec(t.as_str());
    if v.len() == 0 {
        return String::new();
    }
    let first = v[0];
    let vowel = first == 'a' || first == 'e' || first == 'i' || first == 'o' || first == 'u'
        || first == 'A' || first == 'E' || first == 'I' || first == 'O' || first == 'U';
    if vowel {
        let mut s = chars_to_string(&v);
        s.append("-ay");
        s
    } else {
        let rest = crate::text::slice_chars(&v, 1, v.len());
        proof {
            assert(rest@ =~= v@.skip(1));
        }
        let mut s = chars_to_string(&rest);
        s.append("-");
        crate::text::push_char(&mut s, first);
        s.append("ay");
        proof {
            reveal_strlit("-");
            assert("-"@ =~= seq!['-']);
            assert(s@ =~= spec_pig_latin(w@));
        }
        s
    }
}

/// Answers the current time on a time question; the caller supplies the
/// clock reading.
pub struct TimePlugin;

impl TimePlugin {
    /// The plugin applies when the prompt mentions the time.
    pub fn wants(lower: &str) -> (r: bool)
        ensures
            r == (has_sub(lower@, "time"@) || has_sub(lower@, "what time"@)),
    {
        str_contains(lower, "time") || str_contains(lower, "what time")
    }
}

/// Detects arithmetic prompts; the caller evaluates the expression.
pub struct CalcPlugin;

impl CalcPlugin {
    /// The expression a calculator prompt carries: the text after a
    /// `calc ` or `calculate ` prefix, or the whole trimmed prompt when
    /// it is made only of digits, whitespace and operator characters.
    pub fn extract(prompt: &str) -> (r: Option<String>)
        ensures
            ({
                let t = trimmed_ws(prompt@);
                let lower = to_lower(t);
                if starts_with(lower, "calc "@) && !starts_with(lower, "calcu"@) {
                    r matches Option::Some(e) && e@ == trimmed_ws(t.skip(5))
                } else if starts_with(lower, "calculate "@) {
                    r matches Option::Some(e) && e@ == trimmed_ws(t.skip(10))
                } else if forall|i: int|
                    0 <= i < t.len() ==> is_ws(#[trigger] t[i]) || is_calc_char(t[i]) {
                    r matches Option::Some(e) && e@ == t
                } else {
                    r is None
                }
            }),
    {
        let t = trim_ws_str(prompt);
        let lower = lower_str(t.as_str());
        let v = to_char_vec(t.as_str());
        proof {
            reveal_strlit("calc ");
            reveal_strlit("calcu");
            reveal_strlit("calculate ");
        }
        if str_starts_with(lower.as_str(), "calc ") && !str_starts_with(lower.as_str(), "calcu") {
            let rest = crate::text::slice_chars(&v, 5, v.len());
            proof {
                assert(rest@ =~= t@.skip(5));
            }
            let rs = chars_to_string(&rest);
            return Option::Some(trim_ws_str(rs.as_str()));
        }
        if str_starts_with(lower.as_str(), "calculate ") {
            let rest = crate::text::slice_chars(&v, 10, v.len());
            proof {
                assert(rest@ =~= t@.skip(10));
            }
            let rs = chars_to_string(&rest);
            return Option::Some(trim_ws_str(rs.as_str()));
        }
        let mut i: usize = 0;
        while i < v.len()
            invariant
                i <= v@.len(),
                v@ == t@,
                t@ == trimmed_ws(prompt@),
                !(starts_with(to_lower(t@), "calc "@) && !starts_with(to_lower(t@), "calcu"@)),
                !starts_with(to_lower(t@), "calculate "@),
                forall|k: int| 0 <= k < i ==> is_ws(#[trigger] v@[k]) || is_calc_char(v@[k]),
            decreases v@.len() - i,
        {
            let c = v[i];
            let ok = c == ' ' || c == '\t' || c == '\n' || c == '\r' || ('0' <= c && c <= '9') || c
                == '.' || c == '+' || c == '-' || c == '*' || c == '/' || c == '(' || c == ')' || c
                == '%';
            if !ok {
                proof {
                    assert(!(is_ws(v@[i as int]) || is_calc_char(v@[i as int])));
                }
                return Option::None;
            }
            i = i + 1;
        }
        Option::Some(t)
    }
}

/// A character of a plain calculator expression.
pub open spec fn is_calc_char(c: char) -> bool {
    ('0' <= c && c <= '9') || c == '.' || c == '+' || c == '-' || c == '*' || c == '/' || c == '('
        || c == ')' || c == '%'
}

/// Detects weather prompts; the caller performs the lookup.
pub struct WeatherPlugin;

impl WeatherPlugin {
    /// The location of a `weather ...` prompt: the text after the first
    /// space, trimmed, or `_` when absent or blank. Nothing when the
    /// prompt is not a weather prompt.
    pub fn location(prompt: &str) -> (r: Option<String>)
        ensures
            starts_with(to_lower(prompt@), "weather"@) <==> r is Some,
            r matches Option::Some(l) ==> l@.len() > 0,
    {
        let lower = lower_str(prompt);
        if !str_starts_with(lower.as_str(), "weather") {
            return Option::None;
        }
        let v = to_char_vec(prompt);
        proof {
            reveal_strlit("_");
        }
        let vl = v.len();
        let sp = crate::text::find_char_in(&v, ' ');
        match sp {
            Option::Some(i) => {
                proof {
                    assert(i < vl);
                }
                let rest = crate::text::slice_chars(&v, i + 1, v.len());
                let rs = chars_to_string(&rest);
                let t = trim_ws_str(rs.as_str());
                if t.as_str().unicode_len() == 0 {
                    Option::Some("_".to_owned())
                } else {
                    Option::Some(t)
                }
            },
            Option::None => Option::Some("_".to_owned()),
        }
    }
}

/// Detects news prompts; the caller fetches headlines.
pub struct NewsPlugin;

impl NewsPlugin {
    pub fn new() -> (r: NewsPlugin)
    {
        NewsPlugin
    }

    /// The plugin applies when the prompt asks for news or headlines.
    pub fn wants(lower: &str) -> (r: bool)
        ensures
            r == (has_sub(lower@, "news"@) || has_sub(lower@, "headlines"@)),
    {
        str_contains(lower, "news") || str_contains(lower, "headlines")
    }
}

/// A parsed memory command.
pub enum MemoryCommand {
    /// `remember KEY=VALUE`.
    Store { key: String, value: String },
    /// `recall KEY`.
    Recall { key: String },
    /// `memories` or `list memories`.
    List,
}

/// Key-value memory commands; the caller owns the store.
pub struct MemoryPlugin;

impl MemoryPlugin {
    /// Parses a memory command: `remember KEY=VALUE` stores (both sides
    /// trimmed), `recall KEY` retrieves, `memories`/`list memories`
    /// lists; anything else is no memory command.
    pub fn parse(prompt: &str) -> (r: Option<MemoryCommand>)
        ensures
            !(starts_with(to_lower(prompt@), "remember "@) || starts_with(
                to_lower(prompt@),
                "recall "@,
            ) || starts_with(to_lower(prompt@), "memories"@) || starts_with(
                to_lower(prompt@),
                "list memories"@,
            )) ==> r is None,
            starts_with(to_lower(prompt@), "remember "@) ==> ({
                let rest = prompt@.skip(9);
                let eq = crate::text::find_from(rest, '=', 0);
                if eq >= 0 {
                    r matches Option::Some(MemoryCommand::Store { key, value }) && key@
                        == trimmed_ws(rest.subrange(0, eq)) && value@ == trimmed_ws(
                        rest.skip(eq + 1),
                    )
                } else {
                    r is None
                }
            }),
            starts_with(to_lower(prompt@), "recall "@) && !starts_with(
                to_lower(prompt@),
                "remember "@,
            ) ==> (r matches Option::Some(MemoryCommand::Recall { key }) && key@ == trimmed_ws(
                prompt@.skip(7),
            )),
    {
        proof {
            reveal_strlit("remember ");
            reveal_strlit("recall ");
        }
        let lower = lower_str(prompt);
        let v = to_char_vec(prompt);
        if str_starts_with(lower.as_str(), "remember ") {
            let p = to_char_vec("remember ");
            let rest = crate::text::slice_chars(&v, p.len(), v.len());
            let rs = chars_to_string(&rest);
            let rv = to_char_vec(rs.as_str());
            match crate::text::find_char_in(&rv, '=') {
                Option::Some(eq) => {
                    let kpart = crate::text::slice_chars(&rv, 0, eq);
                    let vpart = crate::text::slice_chars(&rv, eq + 1, rv.len());
                    let ks = chars_to_string(&kpart);
                    let vs = chars_to_string(&vpart);
                    Option::Some(
                        MemoryCommand::Store {
                            key: trim_ws_str(ks.as_str()),
                            value: trim_ws_str(vs.as_str()),
                        },
                    )
                },
                Option::None => Option::None,
            }
        } else if str_starts_with(lower.as_str(), "recall ") {
            let p = to_char_vec("recall ");
            let rest = crate::text::slice_chars(&v, p.len(), v.len());
            let rs = chars_to_string(&rest);
            Option::Some(MemoryCommand::Recall { key: trim_ws_str(rs.as_str()) })
        } else if str_starts_with(lower.as_str(), "memories") || str_starts_with(
            lower.as_str(),
            "list memories",
        ) {
            Option::Some(MemoryCommand::List)
        } else {
            Option::None
        }
    }
}

/// System statistics prompts; the caller reads the machine.
pub struct SystemPlugin;

impl SystemPlugin {
    /// The plugin applies when the prompt mentions the system, CPU or
    /// memory.
    pub fn wants(lower: &str) -> (r: bool)
        ensures
            r == (has_sub(lower@, "system"@) || has_sub(lower@, "cpu"@) || has_sub(lower@, "ram"@)
                || has_sub(lower@, "memory"@)),
    {
        str_contains(lower, "system") || str_contains(lower, "cpu") || str_contains(lower, "ram")
            || str_contains(lower, "memory")
    }

    /// Renders the system line from the caller's readings.
    pub fn render(cores: u64, used_kb: u64, total_kb: u64) -> (r: String)
        ensures
            r@ == "CPU cores: "@ + dec_digits(cores as int) + " | Memory used: "@ + dec_digits(
                used_kb as int,
            ) + " / "@ + dec_digits(total_kb as int) + " KB"@,
    {
        let mut s = String::new();
        s.append("CPU cores: ");
        let c = u64_to_string(cores);
        s.append(c.as_str());
        s.append(" | Memory used: ");
        let u = u64_to_string(used_kb);
        s.append(u.as_str());
        s.append(" / ");
        let t = u64_to_string(total_kb);
        s.append(t.as_str());
        s.append(" KB");
        s
    }
}

/// The sentence-splitting state after `i` characters: finished sentences
/// and the one being read. A sentence ends at a period; blank sentences
/// are dropped after trimming.
pub open spec fn sentence_state(s: Seq<char>, i: int) -> (Seq<Seq<char>>, Seq<char>)
    decreases i,
{
    if i <= 0 {
        (Seq::empty(), Seq::empty())
    } else {
        let (parts, cur) = sentence_state(s, i - 1);
        let c = s[i - 1];
        if c == '.' {
            let t = trimmed_ws(cur);
            if t.len() > 0 {
                (parts.push(t), Seq::empty())
            } else {
                (parts, Seq::empty())
            }
        } else {
            (parts, cur.push(c))
        }
    }
}

/// The nonempty trimmed sentences of a text, in order.
pub open spec fn sentences_of(s: Seq<char>) -> Seq<Seq<char>> {
    let (parts, cur) = sentence_state(s, s.len() as int);
    let t = trimmed_ws(cur);
    if t.len() > 0 {
        parts.push(t)
    } else {
        parts
    }
}

/// Trivial summarization: the first sentences of a text.
pub struct SummaryPlugin;

impl SummaryPlugin {
    /// The summary of a text: its first two nonempty sentences joined by
    /// `. `, truncated to 400 characters; nothing when the text has no
    /// sentences.
    pub fn summarize(text: &str) -> (r: Option<String>)
        ensures
            ({
                let sents = sentences_of(text@);
                match r {
                    Option::Some(s) => sents.len() > 0 && s@ == truncated(
                        joined(
                            if sents.len() <= 2 {
                                sents
                            } else {
                                sents.subrange(0, 2)
                            },
                            ". "@,
                        ),
                        400,
                    ),
                    Option::None => sents.len() == 0,
                }
            }),
    {
        let v = to_char_vec(text);
        let mut parts: Vec<String> = Vec::new();
        let mut cur: Vec<char> = Vec::new();
        let mut i: usize = 0;
        while i < v.len()
            invariant
                i <= v@.len(),
                v@ == text@,
                (parts.deep_view(), cur@) == sentence_state(text@, i as int),
            decreases v@.len() - i,
        {
            let c = v[i];
            if c == '.' {
                let cs = chars_to_string(&cur);
                let t = trim_ws_str(cs.as_str());
                if t.as_str().unicode_len() > 0 {
                    parts.push(t);
                    proof {
                        assert(parts.deep_view() =~~= sentence_state(text@, i + 1).0);
                    }
                }
                cur = Vec::new();
            } else {
                cur.push(c);
            }
            i = i + 1;
        }
        let cs = chars_to_string(&cur);
        let t = trim_ws_str(cs.as_str());
        if t.as_str().unicode_len() > 0 {
            parts.push(t);
            proof {
                assert(parts.deep_view() =~~= sentences_of(text@));
            }
        }
        if parts.len() == 0 {
            return Option::None;
        }
        let take: usize = if parts.len() > 2 {
            2
        } else {
            parts.len()
        };
        let mut first: Vec<String> = Vec::new();
        let mut k: usize = 0;
        while k < take
            invariant
                k <= take,
                take <= parts@.len(),
                take == if parts.deep_view().len() <= 2 {
                    parts.deep_view().len() as int
                } else {
                    2int
                },
                parts.deep_view().len() == parts@.len(),
                first.deep_view() == parts.deep_view().subrange(0, k as int),
            decreases take - k,
        {
            let ghost old_dv = first.deep_view();
            let ghost old_first = first@;
            proof {
                assert(first.deep_view().len() == first@.len());
                assert(forall|x: int|
                    0 <= x < first@.len() ==> first.deep_view()[x] == (#[trigger] first@[x])@);
            }
            first.push(parts[k].clone());
            k = k + 1;
            proof {
                assert forall|x: int| 0 <= x < first.deep_view().len() implies first.deep_view()[x]
                    == parts.deep_view().subrange(0, k as int)[x] by {
                    assert(first.deep_view()[x] == first@[x]@);
                    assert(parts.deep_view()[x] == parts@[x]@);
                    if x < old_first.len() {
                        assert(first@[x] == old_first[x]);
                        assert(old_dv[x] == parts.deep_view().subrange(0, k - 1)[x]);
                    } else {
                        assert(first@[x] == parts@[k - 1]);
                    }
                }
                assert(first.deep_view() =~= parts.deep_view().subrange(0, k as int));
            }
        }
        proof {
            if parts.deep_view().len() <= 2 {
                assert(first.deep_view() =~= sentences_of(text@));
            }
        }
        let joined_s = crate::text::join_with(&first, ". ");
        Option::Some(truncate_chars(joined_s.as_str(), 400))
    }

    /// The plugin applies to `summarize ...` prompts; the payload is the
    /// text after the prefix.
    pub fn extract(prompt: &str) -> (r: Option<String>)
        ensures
            starts_with(to_lower(prompt@), "summarize "@) <==> r is Some,
            r matches Option::Some(t) ==> t@ == trimmed_ws(prompt@.skip("summarize "@.len() as int)),
    {
        let lower = lower_str(prompt);
        if !str_starts_with(lower.as_str(), "summarize ") {
            return Option::None;
        }
        let v = to_char_vec(prompt);
        let p = to_char_vec("summarize ");
        let rest = crate::text::slice_chars(&v, p.len(), v.len());
        proof {
            assert(rest@ =~= prompt@.skip("summarize "@.len() as int));
        }
        let rs = chars_to_string(&rest);
        Option::Some(trim_ws_str(rs.as_str()))
    }
}

/// A parsed translate command.
pub enum TranslateCommand {
    Uppercase { text: String },
    Lowercase { text: String },
    PigLatin { text: String },
    Unsupported,
}

/// Simple text transformations behind `translate to <lang>: <text>`.
pub struct TranslatePlugin;

impl TranslatePlugin {
    /// Parses `translate to <lang>: <text>`; the language decides the
    /// transformation, anything but `uppercase`, `lowercase` and `pig`
    /// is unsupported. Nothing on prompts without the phrase or colon.
    pub fn parse(prompt: &str) -> (r: Option<TranslateCommand>)
        ensures
            !starts_with(to_lower(prompt@), "translate to "@) ==> r is None,
    {
        let lower = lower_str(prompt);
        if !str_starts_with(lower.as_str(), "translate to ") {
            return Option::None;
        }
        let v = to_char_vec(prompt);
        let p = to_char_vec("translate to ");
        let rest = crate::text::slice_chars(&v, p.len(), v.len());
        match crate::text::find_char_in(&rest, ':') {
            Option::Some(ci) => {
                let langv = crate::text::slice_chars(&rest, 0, ci);
                let textv = crate::text::slice_chars(&rest, ci + 1, rest.len());
                let langs = chars_to_string(&langv);
                let lang_t = trim_ws_str(langs.as_str());
                let lang = lower_str(lang_t.as_str());
                let ts = chars_to_string(&textv);
                let text = trim_ws_str(ts.as_str());
                if str_eq(lang.as_str(), "uppercase") {
                    Option::Some(TranslateCommand::Uppercase { text })
                } else if str_eq(lang.as_str(), "lowercase") {
                    Option::Some(TranslateCommand::Lowercase { text })
                } else if str_eq(lang.as_str(), "pig") {
                    Option::Some(TranslateCommand::PigLatin { text })
                } else {
                    Option::Some(TranslateCommand::Unsupported)
                }
            },
            Option::None => Option::None,
        }
    }

    /// Pig-latin of a whole text: each whitespace-run word translated,
    /// joined by single spaces.
    pub fn pig_latin_text(text: &str) -> (r: String)
        ensures
            ({
                let words = split_ws(text@);
                r@ == joined(words.map_values(|w: Seq<char>| spec_pig_latin(w)), " "@)
            }),
    {
        let words = split_whitespace(text);
        let mut out: Vec<String> = Vec::new();
        let mut i: usize = 0;
        while i < words.len()
            invariant
                i <= words@.len(),
                words.deep_view() == split_ws(text@),
                words.deep_view().len() == words@.len(),
                out.deep_view() == split_ws(text@).subrange(0, i as int).map_values(
                    |w: Seq<char>| spec_pig_latin(w),
                ),
            decreases words@.len() - i,
        {
            let ghost old_dv = out.deep_view();
            let ghost old_out = out@;
            proof {
                assert(out.deep_view().len() == out@.len());
                assert(forall|x: int|
                    0 <= x < out@.len() ==> out.deep_view()[x] == (#[trigger] out@[x])@);
            }
            out.push(pig_latin_word(words[i].as_str()));
            i = i + 1;
            proof {
                assert(words.deep_view()[i - 1] == words@[i - 1]@);
                assert forall|x: int| 0 <= x < out.deep_view().len() implies out.deep_view()[x]
                    == split_ws(text@).subrange(0, i as int).map_values(
                    |w: Seq<char>| spec_pig_latin(w),
                )[x] by {
                    assert(out.deep_view()[x] == out@[x]@);
                    if x < old_out.len() {
                        assert(out@[x] == old_out[x]);
                        assert(old_dv[x] == split_ws(text@).subrange(0, i - 1).map_values(
                            |w: Seq<char>| spec_pig_latin(w),
                        )[x]);
                    } else {
                        assert(out@[x]@ == spec_pig_latin(words@[i - 1]@));
                        assert(split_ws(text@)[x] == words.deep_view()[x]);
                    }
                }
                assert(out.deep_view() =~= split_ws(text@).subrange(0, i as int).map_values(
                    |w: Seq<char>| spec_pig_latin(w),
                ));
            }
        }
        proof {
            assert(split_ws(text@).subrange(0, split_ws(text@).len() as int) =~= split_ws(text@));
            assert(out.deep_view() =~~= split_ws(text@).map_values(
                |w: Seq<char>| spec_pig_latin(w),
            ));
        }
        crate::text::join_with(&out, " ")
    }
}

/// Password-request prompts; the caller draws the randomness.
pub struct PasswordPlugin;

impl PasswordPlugin {
    /// The requested length of a password prompt: the first numeric
    /// whitespace token, or 16. Nothing when the prompt does not ask for
    /// a password.
    pub fn requested_length(prompt: &str) -> (r: Option<u64>)
        ensures
            !(starts_with(to_lower(prompt@), "password"@) || starts_with(
                to_lower(prompt@),
                "gen password"@,
            ) || starts_with(to_lower(prompt@), "generate password"@)) ==> r is None,
            r matches Option::Some(n) ==> n >= 1,
    {
        let lower = lower_str(prompt);
        if !(str_starts_with(lower.as_str(), "password") || str_starts_with(
            lower.as_str(),
            "gen password",
        ) || str_starts_with(lower.as_str(), "generate password")) {
            return Option::None;
        }
        let parts = split_whitespace(prompt);
        let mut i: usize = 0;
        while i < parts.len()
            invariant
                i <= parts@.len(),
                starts_with(to_lower(prompt@), "password"@) || starts_with(
                    to_lower(prompt@),
                    "gen password"@,
                ) || starts_with(to_lower(prompt@), "generate password"@),
            decreases parts@.len() - i,
        {
            match parse_u64(parts[i].as_str()) {
                Option::Some(n) => {
                    if n >= 1 {
                        return Option::Some(n);
                    }
                },
                Option::None => {},
            }
            i = i + 1;
        }
        Option::Some(16)
    }
}

/// The value of the first `k` digits of a decimal string, most
/// significant first.
pub open spec fn digits_value(s: Seq<char>, k: int) -> int
    decreases k,
{
    if k <= 0 {
        0
    } else {
        digits_value(s, k - 1) * 10 + (s[k - 1] as int - '0' as int)
    }
}

/// The value of `k` digits stays below ten to the `k`th.
proof fn lemma_digits_value_bound(s: Seq<char>, k: int, bound: int)
    requires
        0 <= k,
        forall|m: int| 0 <= m < k ==> '0' <= #[trigger] s[m] && s[m] <= '9',
        pow10(k) == bound,
    ensures
        0 <= digits_value(s, k) < bound,
    decreases k,
{
    if k > 0 {
        lemma_digits_value_bound(s, k - 1, pow10(k - 1));
    }
}

/// Ten to the `k`th.
pub open spec fn pow10(k: int) -> int
    decreases k,
{
    if k <= 0 {
        1
    } else {
        10 * pow10(k - 1)
    }
}

/// The first seven powers of ten, written out.
proof fn lemma_pow10_small()
    ensures
        pow10(0) == 1,
        pow10(1) == 10,
        pow10(2) == 100,
        pow10(3) == 1000,
        pow10(4) == 10000,
        pow10(5) == 100000,
        pow10(6) == 1000000,
{
    assert(pow10(0) == 1);
    assert(pow10(1) == 10);
    assert(pow10(2) == 100);
    assert(pow10(3) == 1000);
    assert(pow10(4) == 10000);
    assert(pow10(5) == 100000);
    assert(pow10(6) == 1000000);
}

/// The numeric value of a decimal digit string of one through six digits;
/// nothing exactly when the string is empty, longer than six characters,
/// or holds a non-digit.
pub fn parse_u64(s: &str) -> (r: Option<u64>)
    ensures
        r is Some <==> 1 <= s@.len() <= 6 && crate::url::all_digits(s@),
        r matches Option::Some(n) ==> n == digits_value(s@, s@.len() as int),
{
    let v = to_char_vec(s);
    if v.len() == 0 || v.len() > 6 {
        return Option::None;
    }
    let mut n: u64 = 0;
    let mut i: usize = 0;
    while i < v.len()
        invariant
            i <= v@.len(),
            v@.len() <= 6,
            v@ == s@,
            n == digits_value(s@, i as int),
            n <= 999999,
            forall|k: int| 0 <= k < i ==> '0' <= #[trigger] v@[k] && v@[k] <= '9',
        decreases v@.len() - i,
    {
        let c = v[i];
        if !('0' <= c && c <= '9') {
            proof {
                assert(!crate::url::all_digits(s@));
            }
            return Option::None;
        }
        proof {
            lemma_pow10_small();
            lemma_digits_value_bound(s@, i as int, pow10(i as int));
        }
        n = n * 10 + (((c as u8) - ('0' as u8)) as u64);
        i = i + 1;
        proof {
            lemma_pow10_small();
            lemma_digits_value_bound(s@, i as int, pow10(i as int));
        }
    }
    Option::Some(n)
}

/// Hashing commands, computed through the digest bindings.
pub struct HashPlugin;

impl HashPlugin {
    /// Answers `hash ...` prompts: `hash sha256 <t>` and `hash md5 <t>`
    /// digest the text after their prefix, any other `hash <t>` digests
    /// with blake3. Nothing otherwise.
    pub fn handle(prompt: &str) -> (r: Option<String>)
        ensures
            !starts_with(to_lower(prompt@), "hash "@) ==> r is None,
            starts_with(to_lower(prompt@), "hash "@) ==> (r matches Option::Some(d) && ({
                let rest = trimmed_ws(prompt@.skip(5));
                if starts_with(rest, "sha256 "@) {
                    d@ == sha256_hex_of(rest.skip(7))
                } else if starts_with(rest, "md5 "@) {
                    d@ == md5_hex_of(rest.skip(4))
                } else {
                    d@ == blake3_hex_of(rest)
                }
            })),
    {
        proof {
            reveal_strlit("hash ");
            reveal_strlit("sha256 ");
            reveal_strlit("md5 ");
        }
        let lower = lower_str(prompt);
        if !str_starts_with(lower.as_str(), "hash ") {
            return Option::None;
        }
        let v = to_char_vec(prompt);
        let rest0 = crate::text::slice_chars(&v, 5, v.len());
        proof {
            assert(rest0@ =~= prompt@.skip(5));
        }
        let r0 = chars_to_string(&rest0);
        let rest = trim_ws_str(r0.as_str());
        let rv = to_char_vec(rest.as_str());
        if str_starts_with(rest.as_str(), "sha256 ") {
            let tv = crate::text::slice_chars(&rv, 7, rv.len());
            proof {
                assert(tv@ =~= rest@.skip(7));
            }
            let ts = chars_to_string(&tv);
            Option::Some(sha256_hex(ts.as_str()))
        } else if str_starts_with(rest.as_str(), "md5 ") {
            let tv = crate::text::slice_chars(&rv, 4, rv.len());
            proof {
                assert(tv@ =~= rest@.skip(4));
            }
            let ts = chars_to_string(&tv);
            Option::Some(md5_hex(ts.as_str()))
        } else {
            Option::Some(blake3_hex(rest.as_str()))
        }
    }
}

/// Base64 commands, computed through the codec bindings.
pub struct Base64Plugin;

impl Base64Plugin {
    /// Answers `b64 encode <t>` and `b64 decode <t>` prompts: encoding
    /// renders the trimmed payload's bytes in base64; decoding renders
    /// the decoded bytes as lossy UTF-8, or reports invalid input.
    pub fn handle(prompt: &str) -> (r: Option<String>)
        ensures
            !(starts_with(to_lower(prompt@), "b64 encode "@) || starts_with(
                to_lower(prompt@),
                "b64 decode "@,
            )) ==> r is None,
            starts_with(to_lower(prompt@), "b64 encode "@) || starts_with(
                to_lower(prompt@),
                "b64 decode "@,
            ) ==> r is Some,
            (starts_with(to_lower(prompt@), "b64 decode "@) && !starts_with(
                to_lower(prompt@),
                "b64 encode "@,
            ) && base64_decoded(trimmed_ws(prompt@.skip(11))) is Some) ==> (r is Some && r->Some_0@
                == utf8_lossy_of(base64_decoded(trimmed_ws(prompt@.skip(11)))->Some_0)),
    {
        proof {
            reveal_strlit("b64 encode ");
            reveal_strlit("b64 decode ");
        }
        let lower = lower_str(prompt);
        let v = to_char_vec(prompt);
        if str_starts_with(lower.as_str(), "b64 encode ") {
            let p = to_char_vec("b64 encode ");
            let rest = crate::text::slice_chars(&v, p.len(), v.len());
            let rs = chars_to_string(&rest);
            let t = trim_ws_str(rs.as_str());
            let bytes = t.as_str().as_bytes_vec();
            Option::Some(b64_encode(bytes.as_slice()))
        } else if str_starts_with(lower.as_str(), "b64 decode ") {
            let p = to_char_vec("b64 decode ");
            let rest = crate::text::slice_chars(&v, p.len(), v.len());
            let rs = chars_to_string(&rest);
            let t = trim_ws_str(rs.as_str());
            match b64_decode(t.as_str()) {
                Option::Some(bytes) => Option::Some(bytes_to_string_lossy(bytes.as_slice())),
                Option::None => Option::Some("Invalid base64 input".to_owned()),
            }
        } else {
            Option::None
        }
    }
}

/// The left-to-right boolean evaluation state: the accumulator and the
/// pending operator (0 none, 1 and, 2 or, 3 not).
pub open spec fn logic_state(toks: Seq<Seq<char>>, k: int) -> (Option<bool>, int)
    decreases k,
{
    if k <= 0 {
        (Option::None, 0)
    } else {
        let (acc, op) = logic_state(toks, k - 1);
        let t = toks[k - 1];
        if t == "true"@ {
            (Option::Some(logic_apply(acc, op, true)), op)
        } else if t == "false"@ {
            (Option::Some(logic_apply(acc, op, false)), op)
        } else if t == "and"@ {
            (acc, 1)
        } else if t == "or"@ {
            (acc, 2)
        } else if t == "not"@ {
            (
                match acc {
                    Option::Some(a) => Option::Some(!a),
                    Option::None => Option::None,
                },
                3,
            )
        } else {
            (acc, op)
        }
    }
}

/// Applies a pending operator to the accumulator and the next literal.
pub open spec fn logic_apply(acc: Option<bool>, op: int, lit: bool) -> bool {
    match acc {
        Option::None => lit,
        Option::Some(a) => if op == 1 {
            a && lit
        } else if op == 2 {
            a || lit
        } else {
            lit
        },
    }
}

/// Naive left-to-right boolean evaluation of `true`/`false` chained with
/// `and`, `or` and `not`.
pub struct LogicPlugin;

impl LogicPlugin {
    /// Evaluates a lower-cased prompt's boolean tokens left to right, per
    /// `logic_state`; applies only when the prompt contains a connective
    /// and some literal resolves.
    pub fn handle(lower: &str) -> (r: Option<bool>)
        ensures
            !(has_sub(lower@, " and "@) || has_sub(lower@, " or "@) || has_sub(lower@, "not "@))
                ==> r is None,
            (has_sub(lower@, " and "@) || has_sub(lower@, " or "@) || has_sub(lower@, "not "@))
                ==> r == logic_state(split_ws(lower@), split_ws(lower@).len() as int).0,
    {
        if !(str_contains(lower, " and ") || str_contains(lower, " or ") || str_contains(
            lower,
            "not ",
        )) {
            return Option::None;
        }
        let toks = split_whitespace(lower);
        let mut acc: Option<bool> = Option::None;
        let mut op: u8 = 0;
        let mut k: usize = 0;
        while k < toks.len()
            invariant
                k <= toks@.len(),
                toks.deep_view() == split_ws(lower@),
                toks.deep_view().len() == toks@.len(),
                (acc, op as int) == logic_state(split_ws(lower@), k as int),
            decreases toks@.len() - k,
        {
            proof {
                assert(toks.deep_view()[k as int] == toks@[k as int]@);
            }
            let t = &toks[k];
            if str_eq(t.as_str(), "true") {
                let lit = true;
                acc = Option::Some(
                    match acc {
                        Option::Some(a) => if op == 1 {
                            a && lit
                        } else if op == 2 {
                            a || lit
                        } else {
                            lit
                        },
                        Option::None => lit,
                    },
                );
            } else if str_eq(t.as_str(), "false") {
                let lit = false;
                acc = Option::Some(
                    match acc {
                        Option::Some(a) => if op == 1 {
                            a && lit
                        } else if op == 2 {
                            a || lit
                        } else {
                            lit
                        },
                        Option::None => lit,
                    },
                );
            } else if str_eq(t.as_str(), "and") {
                op = 1;
            } else if str_eq(t.as_str(), "or") {
                op = 2;
            } else if str_eq(t.as_str(), "not") {
                acc = match acc {
                    Option::Some(a) => Option::Some(!a),
                    Option::None => Option::None,
                };
                op = 3;
            }
            k = k + 1;
        }
        acc
    }
}

/// Email extraction through the pattern binding.
pub struct ContactPlugin;

impl ContactPlugin {
    /// The first email address in the prompt, if any.
    pub fn first_email(prompt: &str) -> (r: Option<String>)
        ensures
            match r {
                Option::Some(m) => email_in(prompt@) == Option::Some(m@),
                Option::None => email_in(prompt@) is None,
            },
    {
        find_email(prompt)
    }
}

/// Website status prompts; the caller makes the request.
pub struct WebsiteStatusPlugin;

impl WebsiteStatusPlugin {
    /// The target of a `status <url>` or `check <url>` prompt: its second
    /// whitespace token. Nothing otherwise.
    pub fn target(prompt: &str) -> (r: Option<String>)
        ensures
            !(starts_with(to_lower(prompt@), "status "@) || starts_with(
                to_lower(prompt@),
                "check "@,
            )) ==> r is None,
            r matches Option::Some(u) ==> split_ws(prompt@).len() >= 2 && u@ == split_ws(
                prompt@,
            )[1],
    {
        let lower = lower_str(prompt);
        if !(str_starts_with(lower.as_str(), "status ") || str_starts_with(
            lower.as_str(),
            "check ",
        )) {
            return Option::None;
        }
        let parts = split_whitespace(prompt);
        if parts.len() >= 2 {
            proof {
                assert(parts.deep_view()[1] == parts@[1]@);
                assert(parts.deep_view().len() == parts@.len());
            }
            Option::Some(parts[1].clone())
        } else {
            Option::None
        }
    }
}

/// The numbered lines of the first `k` items: `1: ...`, `2: ...`, and so
/// on.
pub open spec fn todo_lines(items: Seq<Seq<char>>, k: int) -> Seq<Seq<char>>
    decreases k,
{
    if k <= 0 {
        Seq::empty()
    } else {
        todo_lines(items, k - 1).push(dec_digits(k) + ": "@ + items[k - 1])
    }
}

/// The to-do list rules; the caller owns the stored list.
pub struct TodoPlugin;

impl TodoPlugin {
    /// Appends an item.
    pub fn add(items: &mut Vec<String>, item: &str)
        ensures
            final(items)@.len() == old(items)@.len() + 1,
            final(items)@[final(items)@.len() - 1]@ == item@,
            forall|i: int| 0 <= i < old(items)@.len() ==> final(items)@[i] == old(items)@[i],
    {
        items.push(item.to_owned());
    }

    /// Removes the item at a one-based position; fails exactly when the
    /// position is zero or past the end.
    pub fn remove(items: &mut Vec<String>, pos: usize) -> (r: bool)
        ensures
            r <==> (1 <= pos <= old(items)@.len()),
            r ==> final(items)@ == old(items)@.remove(pos - 1),
            !r ==> final(items)@ == old(items)@,
    {
        if pos >= 1 && pos <= items.len() {
            items.remove(pos - 1);
            true
        } else {
            false
        }
    }

    /// Renders the list, one numbered line per item, per `todo_lines`.
    pub fn render(items: &Vec<String>) -> (r: String)
        ensures
            items@.len() == 0 ==> r@ == "No todos."@,
            items@.len() > 0 ==> r@ == joined(
                todo_lines(items.deep_view(), items.deep_view().len() as int),
                "\n"@,
            ),
    {
        if items.len() == 0 {
            return "No todos.".to_owned();
        }
        let mut lines: Vec<String> = Vec::new();
        let mut i: usize = 0;
        while i < items.len()
            invariant
                i <= items@.len(),
                i <= u64::MAX,
                items.deep_view().len() == items@.len(),
                lines.deep_view() == todo_lines(items.deep_view(), i as int),
            decreases items@.len() - i,
        {
            let mut line = u64_to_string((i as u64) + 1);
            line.append(": ");
            line.append(items[i].as_str());
            lines.push(line);
            i = i + 1;
            proof {
                assert(items.deep_view()[i - 1] == items@[i - 1]@);
                assert(lines.deep_view() =~~= todo_lines(items.deep_view(), i as int));
            }
        }
        crate::text::join_with(&lines, "\n")
    }
}

/// A deliberate failure path used by tests of the plugin chain.
pub struct ErrorPlugin;

impl ErrorPlugin {
    /// Reports the simulated failure on request.
    pub fn handle(lower: &str) -> (r: Option<String>)
        ensures
            has_sub(lower@, "trigger error"@) <==> r is Some,
            r matches Option::Some(m) ==> m@ == "Error: simulated failure"@,
    {
        if str_contains(lower, "trigger error") {
            Option::Some("Error: simulated failure".to_owned())
        } else {
            Option::None
        }
    }
}

} // verus!
