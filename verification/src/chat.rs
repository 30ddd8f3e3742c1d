//! Conversation-side helpers: history hygiene, prompt classification,
//! learnable-fact extraction, fact keys, and the communication-style
//! profile.
//!
//! These are the pure rules behind the chat surface; reading and writing
//! the history itself is the caller's business.

use vstd::prelude::*;

use crate::codecs::{blake3_hex, blake3_hex_of};
use crate::rank::{
    fact_cb, facts_ordered, lex_le, sort_count_pairs, sort_scored_facts,
    LearnedFact,
};
use crate::text::{
    collapse_ws, concat_str, has_sub, is_alnum, is_fact_punct, lower_char, lower_str,
    scan_back, scan_while, str_contains, str_eq, str_starts_with,
    starts_with, to_char_vec, to_lower, trimmed_set, truncate_chars, truncated, chars_to_string,
};

verus! {

/// Conversation turns kept per user.
pub const MAX_HISTORY_TURNS: usize = 24;

/// Characters kept of one turn.
pub const MAX_HISTORY_CHARS_PER_TURN: usize = 600;

/// One stored conversation turn.
pub struct ConversationTurn {
    /// `user` or `assistant` once cleaned.
    pub role: String,
    pub content: String,
    pub timestamp: String,
}

impl ConversationTurn {
    /// A copy equal to this turn.
    pub fn duplicate(&self) -> (r: ConversationTurn)
        ensures
            r == *self,
    {
        ConversationTurn {
            role: self.role.clone(),
            content: self.content.clone(),
            timestamp: self.timestamp.clone(),
        }
    }
}

/// The store key of a user's conversation history.
pub fn history_key(user_id: &str) -> (r: String)
    ensures
        r@ == "chat:history:"@ + user_id@,
{
    concat_str("chat:history:", user_id)
}

/// The store key of a user's communication profile.
pub fn comprehension_key(owner: &str) -> (r: String)
    ensures
        r@ == "chat:comprehension:"@ + owner@,
{
    concat_str("chat:comprehension:", owner)
}

/// A turn's content, whitespace-collapsed and truncated to the per-turn
/// cap.
pub open spec fn spec_sanitize_turn(content: Seq<char>) -> Seq<char> {
    truncated(collapse_ws(content), MAX_HISTORY_CHARS_PER_TURN as int)
}

/// Collapses whitespace in a turn and truncates it to the stored cap.
pub fn sanitize_turn_content(content: &str) -> (r: String)
    ensures
        r@ == spec_sanitize_turn(content@),
{
    let c = crate::text::normalize_whitespace(content);
    truncate_chars(c.as_str(), MAX_HISTORY_CHARS_PER_TURN)
}

/// The canonical form of a prompt: lower-cased, whitespace-collapsed.
pub open spec fn spec_canonical_prompt(s: Seq<char>) -> Seq<char> {
    collapse_ws(to_lower(s))
}

/// Lower-cases a prompt and collapses its whitespace, yielding the key
/// under which learned question-answer pairs are stored.
pub fn canonical_prompt_key(input: &str) -> (r: String)
    ensures
        r@ == spec_canonical_prompt(input@),
{
    let low = lower_str(input);
    crate::text::normalize_whitespace(low.as_str())
}

/// The last turn with the given role, scanning from the newest.
pub open spec fn spec_last_by_role(turns: Seq<ConversationTurn>, role: Seq<char>, i: int) -> Option<
    ConversationTurn,
>
    decreases i,
{
    if i <= 0 {
        Option::None
    } else if turns[i - 1].role@ == role {
        Option::Some(turns[i - 1])
    } else {
        spec_last_by_role(turns, role, i - 1)
    }
}

/// The most recent turn by the given role, if any.
pub fn last_turn_by_role(history: &Vec<ConversationTurn>, role: &str) -> (r: Option<
    ConversationTurn,
>)
    ensures
        r == spec_last_by_role(history@, role@, history@.len() as int),
{
    let mut i: usize = history.len();
    while i > 0
        invariant
            i <= history@.len(),
            spec_last_by_role(history@, role@, history@.len() as int) == spec_last_by_role(
                history@,
                role@,
                i as int,
            ),
        decreases i,
    {
        if str_eq(history[i - 1].role.as_str(), role) {
            return Option::Some(history[i - 1].duplicate());
        }
        i = i - 1;
    }
    Option::None
}

/// A short affirmation or probe that continues the previous exchange.
pub open spec fn spec_is_follow_up(lower: Seq<char>) -> bool {
    ||| lower == "ok"@
    ||| lower == "okay"@
    ||| lower == "sure"@
    ||| lower == "hmm"@
    ||| lower == "go on"@
    ||| lower == "continue"@
    ||| lower == "tell me more"@
    ||| lower == "elaborate"@
    ||| starts_with(lower, "why "@)
    ||| lower == "why"@
    ||| starts_with(lower, "how "@)
    ||| lower == "how"@
    ||| has_sub(lower, "what do you mean"@)
    ||| has_sub(lower, "can you explain"@)
}

/// Whether a lower-cased prompt merely continues the previous exchange.
pub fn is_follow_up_prompt(lower: &str) -> (r: bool)
    ensures
        r == spec_is_follow_up(lower@),
{
    str_eq(lower, "ok") || str_eq(lower, "okay") || str_eq(lower, "sure") || str_eq(lower, "hmm")
        || str_eq(lower, "go on") || str_eq(lower, "continue") || str_eq(lower, "tell me more")
        || str_eq(lower, "elaborate") || str_starts_with(lower, "why ") || str_eq(lower, "why")
        || str_starts_with(lower, "how ") || str_eq(lower, "how") || str_contains(
        lower,
        "what do you mean",
    ) || str_contains(lower, "can you explain")
}

/// A greeting.
pub open spec fn spec_is_greeting(lower: Seq<char>) -> bool {
    ||| lower == "hi"@
    ||| lower == "hello"@
    ||| lower == "hey"@
    ||| lower == "yo"@
    ||| lower == "sup"@
    ||| lower == "good morning"@
    ||| lower == "good afternoon"@
    ||| lower == "good evening"@
    ||| starts_with(lower, "hi "@)
    ||| starts_with(lower, "hello "@)
    ||| starts_with(lower, "hey "@)
}

/// Whether a lower-cased prompt opens the conversation.
pub fn is_greeting(lower: &str) -> (r: bool)
    ensures
        r == spec_is_greeting(lower@),
{
    str_eq(lower, "hi") || str_eq(lower, "hello") || str_eq(lower, "hey") || str_eq(lower, "yo")
        || str_eq(lower, "sup") || str_eq(lower, "good morning") || str_eq(
        lower,
        "good afternoon",
    ) || str_eq(lower, "good evening") || str_starts_with(lower, "hi ") || str_starts_with(
        lower,
        "hello ",
    ) || str_starts_with(lower, "hey ")
}

/// A goodbye.
pub open spec fn spec_is_goodbye(lower: Seq<char>) -> bool {
    ||| lower == "bye"@
    ||| lower == "goodbye"@
    ||| lower == "see you"@
    ||| lower == "later"@
    ||| starts_with(lower, "bye "@)
}

/// Whether a lower-cased prompt closes the conversation.
pub fn is_goodbye(lower: &str) -> (r: bool)
    ensures
        r == spec_is_goodbye(lower@),
{
    str_eq(lower, "bye") || str_eq(lower, "goodbye") || str_eq(lower, "see you") || str_eq(
        lower,
        "later",
    ) || str_starts_with(lower, "bye ")
}

/// Asks for the assistant's whole memory of the user.
pub fn wants_personal_memory_overview(lower: &str) -> (r: bool)
    ensures
        r == (has_sub(lower@, "what do you know about me"@) || has_sub(
            lower@,
            "what do you remember about me"@,
        ) || has_sub(lower@, "what have you learned about me"@) || has_sub(
            lower@,
            "tell me about me"@,
        ) || has_sub(lower@, "remind me what you know about me"@)),
{
    str_contains(lower, "what do you know about me") || str_contains(
        lower,
        "what do you remember about me",
    ) || str_contains(lower, "what have you learned about me") || str_contains(
        lower,
        "tell me about me",
    ) || str_contains(lower, "remind me what you know about me")
}

/// Asks for one remembered fact.
pub fn wants_personal_memory_lookup(lower: &str) -> (r: bool)
    ensures
        r == (has_sub(lower@, "do you remember"@) || has_sub(lower@, "what is my "@) || has_sub(
            lower@,
            "what's my "@,
        ) || has_sub(lower@, "what are my "@) || has_sub(lower@, "where do i live"@) || has_sub(
            lower@,
            "what do i like"@,
        ) || has_sub(lower@, "tell me my "@)),
{
    str_contains(lower, "do you remember") || str_contains(lower, "what is my ") || str_contains(
        lower,
        "what's my ",
    ) || str_contains(lower, "what are my ") || str_contains(lower, "where do i live")
        || str_contains(lower, "what do i like") || str_contains(lower, "tell me my ")
}

/// Asks how the user has been communicating.
pub fn wants_communication_reflection(lower: &str) -> (r: bool)
    ensures
        r == (has_sub(lower@, "how am i communicating"@) || has_sub(
            lower@,
            "how do i communicate"@,
        ) || has_sub(lower@, "my communication style"@) || has_sub(
            lower@,
            "how am i coming across"@,
        ) || has_sub(lower@, "am i being clear"@) || has_sub(
            lower@,
            "what do you think of my communication"@,
        )),
{
    str_contains(lower, "how am i communicating") || str_contains(lower, "how do i communicate")
        || str_contains(lower, "my communication style") || str_contains(
        lower,
        "how am i coming across",
    ) || str_contains(lower, "am i being clear") || str_contains(
        lower,
        "what do you think of my communication",
    )
}

/// Asks what the assistant likes.
pub fn wants_likes_prompt(lower: &str) -> (r: bool)
    ensures
        r == ((has_sub(lower@, "what do you like"@) || has_sub(lower@, "your likes"@) || has_sub(
            lower@,
            "what are your likes"@,
        )) && !has_sub(lower@, "dislike"@)),
{
    (str_contains(lower, "what do you like") || str_contains(lower, "your likes") || str_contains(
        lower,
        "what are your likes",
    )) && !str_contains(lower, "dislike")
}

/// Asks what the assistant dislikes.
pub fn wants_dislikes_prompt(lower: &str) -> (r: bool)
    ensures
        r == (has_sub(lower@, "what do you dislike"@) || has_sub(lower@, "your dislikes"@)
            || has_sub(lower@, "what are your dislikes"@)),
{
    str_contains(lower, "what do you dislike") || str_contains(lower, "your dislikes")
        || str_contains(lower, "what are your dislikes")
}

/// Asks for the assistant's goals.
pub fn wants_goal_prompt(lower: &str) -> (r: bool)
    ensures
        r == (has_sub(lower@, "what do you want"@) || has_sub(lower@, "what are your goals"@)
            || has_sub(lower@, "what are your goal"@) || has_sub(
            lower@,
            "what do you want to learn"@,
        ) || has_sub(lower@, "why do you learn"@)),
{
    str_contains(lower, "what do you want") || str_contains(lower, "what are your goals")
        || str_contains(lower, "what are your goal") || str_contains(
        lower,
        "what do you want to learn",
    ) || str_contains(lower, "why do you learn")
}

/// A fact's text: whitespace collapsed, then sentence punctuation trimmed
/// from both ends.
pub open spec fn spec_normalize_fact(s: Seq<char>) -> Seq<char> {
    trimmed_set(collapse_ws(s), crate::text::fact_punct_pred())
}

/// First position past the leading fact punctuation.
fn fact_scan_fwd(v: &Vec<char>) -> (r: usize)
    ensures
        r as int == scan_while(v@, crate::text::fact_punct_pred(), 0),
        r <= v@.len(),
        r < v@.len() ==> !is_fact_punct(v@[r as int]),
{
    let mut i: usize = 0;
    while i < v.len()
        invariant
            i <= v@.len(),
            scan_while(v@, crate::text::fact_punct_pred(), 0) == scan_while(
                v@,
                crate::text::fact_punct_pred(),
                i as int,
            ),
        decreases v@.len() - i,
    {
        let ch = v[i];
        if !(ch == '.' || ch == ',' || ch == '!' || ch == ';') {
            return i;
        }
        i = i + 1;
    }
    i
}

/// One past the trailing fact punctuation.
fn fact_scan_back(v: &Vec<char>) -> (r: usize)
    ensures
        r as int == scan_back(v@, crate::text::fact_punct_pred(), v@.len() as int),
        r <= v@.len(),
{
    let mut i: usize = v.len();
    while i > 0
        invariant
            i <= v@.len(),
            scan_back(v@, crate::text::fact_punct_pred(), v@.len() as int) == scan_back(
                v@,
                crate::text::fact_punct_pred(),
                i as int,
            ),
        decreases i,
    {
        let ch = v[i - 1];
        if !(ch == '.' || ch == ',' || ch == '!' || ch == ';') {
            return i;
        }
        i = i - 1;
    }
    i
}

/// Normalizes a remembered fact: single spaces, and no stray `.`, `,`,
/// `!` or `;` at either end.
pub fn normalize_fact_text(input: &str) -> (r: String)
    ensures
        r@ == spec_normalize_fact(input@),
{
    let c = crate::text::normalize_whitespace(input);
    let v = to_char_vec(c.as_str());
    let lo = fact_scan_fwd(&v);
    if lo == v.len() {
        return String::new();
    }
    proof {
        crate::text::lemma_scan_back_le(v@, crate::text::fact_punct_pred(), v@.len() as int);
        crate::text::lemma_scan_back_gt(
            v@,
            crate::text::fact_punct_pred(),
            v@.len() as int,
            lo as int,
        );
    }
    let hi = fact_scan_back(&v);
    let out = crate::text::slice_chars(&v, lo, hi);
    chars_to_string(&out)
}

/// One character kept in a key segment: ASCII alphanumeric or `_`, `-`,
/// `.`.
pub open spec fn is_key_char(c: char) -> bool {
    is_alnum(c) || c == '_' || c == '-' || c == '.'
}

/// The kept, lower-cased characters of the first `i` of `s`.
pub open spec fn key_segment_go(s: Seq<char>, i: int) -> Seq<char>
    decreases i,
{
    if i <= 0 {
        Seq::empty()
    } else {
        let rest = key_segment_go(s, i - 1);
        if is_key_char(s[i - 1]) {
            rest.push(lower_char(s[i - 1]))
        } else {
            rest
        }
    }
}

/// A key segment: the input's alphanumeric, `_`, `-` and `.` characters,
/// lower-cased; `anonymous` when nothing is left.
pub open spec fn spec_key_segment(s: Seq<char>) -> Seq<char> {
    let kept = key_segment_go(s, s.len() as int);
    if kept.len() == 0 {
        "anonymous"@
    } else {
        kept
    }
}

/// Reduces an identifier to safe key characters, lower-cased; an empty
/// result becomes `anonymous`.
pub fn sanitize_key_segment(input: &str) -> (r: String)
    ensures
        r@ == spec_key_segment(input@),
{
    let v = to_char_vec(input);
    let mut out: Vec<char> = Vec::new();
    let mut i: usize = 0;
    while i < v.len()
        invariant
            i <= v@.len(),
            v@ == input@,
            out@ == key_segment_go(input@, i as int),
        decreases v@.len() - i,
    {
        let c = v[i];
        if crate::text::alnum_char(c) || c == '_' || c == '-' || c == '.' {
            out.push(crate::text::lower_char_x(c));
        }
        i = i + 1;
    }
    if out.len() == 0 {
        "anonymous".to_owned()
    } else {
        chars_to_string(&out)
    }
}

/// The key that owns a user's remembered facts: the sanitized username
/// when one is known, else the sanitized session id.
pub fn fact_owner_key(user_id: &str, username: Option<&str>) -> (r: String)
    ensures
        r@ == match username {
            Option::Some(n) => "user:"@ + spec_key_segment(n@),
            Option::None => "session:"@ + spec_key_segment(user_id@),
        },
{
    match username {
        Option::Some(name) => {
            let seg = sanitize_key_segment(name);
            concat_str("user:", seg.as_str())
        },
        Option::None => {
            let seg = sanitize_key_segment(user_id);
            concat_str("session:", seg.as_str())
        },
    }
}

/// The store-key prefix under which an owner's facts live.
pub fn fact_prefix(owner: &str) -> (r: String)
    ensures
        r@ == "chat:fact:"@ + owner@ + ":"@,
{
    let mut s = concat_str("chat:fact:", owner);
    crate::text::push_char(&mut s, ':');
    proof {
        reveal_strlit(":");
        assert(":"@ =~= seq![':']);
        assert(s@ =~= "chat:fact:"@ + owner@ + ":"@);
    }
    s
}

/// The store key of one fact: the owner's prefix and the digest of the
/// fact's canonical text.
pub fn fact_storage_key(owner: &str, canonical: &str) -> (r: String)
    ensures
        r@ == "chat:fact:"@ + owner@ + ":"@ + blake3_hex_of(canonical@),
{
    let p = fact_prefix(owner);
    let d = blake3_hex(canonical);
    concat_str(p.as_str(), d.as_str())
}

/// A name given after an introduction phrase: trimmed of whitespace and
/// punctuation, with its first character upper-cased.
pub open spec fn spec_name_from_rest(rest: Seq<char>) -> Option<Seq<char>> {
    let c = trimmed_set(crate::text::trimmed_ws(rest), crate::text::intro_punct_pred());
    if c.len() == 0 {
        Option::None
    } else {
        Option::Some(seq![crate::text::upper_char(c[0])] + c.skip(1))
    }
}

/// The name a lower-cased introduction carries: the text after
/// `my name is `, `i am ` or `i'm ` (first match), cleaned and
/// capitalized; nothing when no phrase matches or nothing is left.
pub open spec fn spec_name_from_intro(lower_input: Seq<char>) -> Option<Seq<char>> {
    if starts_with(lower_input, "my name is "@) {
        spec_name_from_rest(lower_input.skip("my name is "@.len() as int))
    } else if starts_with(lower_input, "i am "@) {
        spec_name_from_rest(lower_input.skip("i am "@.len() as int))
    } else if starts_with(lower_input, "i'm "@) {
        spec_name_from_rest(lower_input.skip("i'm "@.len() as int))
    } else {
        Option::None
    }
}

/// First position past the leading introduction punctuation.
fn intro_scan_fwd(v: &Vec<char>) -> (r: usize)
    ensures
        r as int == scan_while(v@, crate::text::intro_punct_pred(), 0),
        r <= v@.len(),
        r < v@.len() ==> !crate::text::is_intro_punct(v@[r as int]),
{
    let mut i: usize = 0;
    while i < v.len()
        invariant
            i <= v@.len(),
            scan_while(v@, crate::text::intro_punct_pred(), 0) == scan_while(
                v@,
                crate::text::intro_punct_pred(),
                i as int,
            ),
        decreases v@.len() - i,
    {
        let ch = v[i];
        if !(ch == '.' || ch == ',' || ch == '!' || ch == '?') {
            return i;
        }
        i = i + 1;
    }
    i
}

/// One past the trailing introduction punctuation.
fn intro_scan_back(v: &Vec<char>) -> (r: usize)
    ensures
        r as int == scan_back(v@, crate::text::intro_punct_pred(), v@.len() as int),
        r <= v@.len(),
{
    let mut i: usize = v.len();
    while i > 0
        invariant
            i <= v@.len(),
            scan_back(v@, crate::text::intro_punct_pred(), v@.len() as int) == scan_back(
                v@,
                crate::text::intro_punct_pred(),
                i as int,
            ),
        decreases i,
    {
        let ch = v[i - 1];
        if !(ch == '.' || ch == ',' || ch == '!' || ch == '?') {
            return i;
        }
        i = i - 1;
    }
    i
}

fn name_from_rest(rest: &str) -> (r: Option<String>)
    ensures
        match r {
            Option::Some(s) => spec_name_from_rest(rest@) == Option::Some(s@),
            Option::None => spec_name_from_rest(rest@) is None,
        },
{
    let t = crate::text::trim_ws_str(rest);
    let v = to_char_vec(t.as_str());
    let lo = intro_scan_fwd(&v);
    if lo == v.len() {
        return Option::None;
    }
    proof {
        assert(crate::text::intro_punct_pred()(v@[lo as int]) == crate::text::is_intro_punct(
            v@[lo as int],
        ));
        crate::text::lemma_scan_back_le(v@, crate::text::intro_punct_pred(), v@.len() as int);
        crate::text::lemma_scan_back_gt(
            v@,
            crate::text::intro_punct_pred(),
            v@.len() as int,
            lo as int,
        );
    }
    let hi = intro_scan_back(&v);
    let c = crate::text::slice_chars(&v, lo, hi);
    let mut out: Vec<char> = Vec::new();
    out.push(crate::text::upper_char_x(c[0]));
    let mut i: usize = 1;
    while i < c.len()
        invariant
            1 <= i <= c@.len(),
            c@.len() > 0,
            out@ == seq![crate::text::upper_char(c@[0])] + c@.subrange(1, i as int),
        decreases c@.len() - i,
    {
        out.push(c[i]);
        i = i + 1;
        proof {
            assert(out@ =~= seq![crate::text::upper_char(c@[0])] + c@.subrange(1, i as int));
        }
    }
    proof {
        assert(c@.subrange(1, c@.len() as int) =~= c@.skip(1));
        assert(out@ =~= seq![crate::text::upper_char(c@[0])] + c@.skip(1));
    }
    Option::Some(chars_to_string(&out))
}

/// Extracts a name from a lower-cased introduction such as
/// `my name is ...`; the name is trimmed and capitalized.
pub fn extract_name_from_intro(lower_input: &str) -> (r: Option<String>)
    ensures
        match r {
            Option::Some(s) => spec_name_from_intro(lower_input@) == Option::Some(s@),
            Option::None => spec_name_from_intro(lower_input@) is None,
        },
{
    let v = to_char_vec(lower_input);
    if str_starts_with(lower_input, "my name is ") {
        let p = to_char_vec("my name is ");
        let rest = crate::text::slice_chars(&v, p.len(), v.len());
        proof {
            assert(rest@ =~= lower_input@.skip("my name is "@.len() as int));
        }
        let rs = chars_to_string(&rest);
        name_from_rest(rs.as_str())
    } else if str_starts_with(lower_input, "i am ") {
        let p = to_char_vec("i am ");
        let rest = crate::text::slice_chars(&v, p.len(), v.len());
        proof {
            assert(rest@ =~= lower_input@.skip("i am "@.len() as int));
        }
        let rs = chars_to_string(&rest);
        name_from_rest(rs.as_str())
    } else if str_starts_with(lower_input, "i'm ") {
        let p = to_char_vec("i'm ");
        let rest = crate::text::slice_chars(&v, p.len(), v.len());
        proof {
            assert(rest@ =~= lower_input@.skip("i'm "@.len() as int));
        }
        let rs = chars_to_string(&rest);
        name_from_rest(rs.as_str())
    } else {
        Option::None
    }
}

/// The normalized fact of a slice of the prompt, or nothing when it
/// normalizes to empty.
pub open spec fn fact_or_none(s: Seq<char>) -> Option<Seq<char>> {
    if spec_normalize_fact(s).len() > 0 {
        Option::Some(spec_normalize_fact(s))
    } else {
        Option::None
    }
}

/// The learnable fact a prompt volunteers, if any: questions and explicit
/// commands are never facts; a `remember that `-style prefix contributes
/// the text after it; a `my ...`/`i ...` statement contributes the whole
/// prompt. The fact is whitespace-collapsed and punctuation-trimmed.
pub open spec fn spec_extract_fact(prompt: Seq<char>) -> Option<Seq<char>> {
    let clean = collapse_ws(prompt);
    let lower = to_lower(clean);
    if clean.len() == 0 {
        Option::None
    } else if clean.last() == '?' || starts_with(lower, "remember:"@) || starts_with(
        lower,
        "learn:"@,
    ) || starts_with(lower, "forget:"@) {
        Option::None
    } else if starts_with(lower, "remember that "@) {
        fact_or_none(clean.skip("remember that "@.len() as int))
    } else if starts_with(lower, "remember this "@) {
        fact_or_none(clean.skip("remember this "@.len() as int))
    } else if starts_with(lower, "please remember that "@) {
        fact_or_none(clean.skip("please remember that "@.len() as int))
    } else if starts_with(lower, "please remember "@) {
        fact_or_none(clean.skip("please remember "@.len() as int))
    } else if starts_with(lower, "for future reference "@) {
        fact_or_none(clean.skip("for future reference "@.len() as int))
    } else if starts_with(lower, "fyi "@) {
        fact_or_none(clean.skip("fyi "@.len() as int))
    } else if starts_with(lower, "my "@) && (has_sub(lower, " is "@) || has_sub(lower, " are "@)
        || has_sub(lower, " was "@) || has_sub(lower, " were "@) || has_sub(lower, " favorite "@)
        || has_sub(lower, " favourite "@)) {
        fact_or_none(clean)
    } else if starts_with(lower, "i am "@) || starts_with(lower, "i'm "@) || starts_with(
        lower,
        "i live in "@,
    ) || starts_with(lower, "i live at "@) || starts_with(lower, "i work at "@) || starts_with(
        lower,
        "i work in "@,
    ) || starts_with(lower, "i like "@) || starts_with(lower, "i love "@) || starts_with(
        lower,
        "i prefer "@,
    ) {
        fact_or_none(clean)
    } else {
        Option::None
    }
}

fn fact_after_prefix(clean: &str, prefix: &str) -> (r: Option<String>)
    requires
        prefix@.len() <= clean@.len(),
    ensures
        match r {
            Option::Some(s) => fact_or_none(clean@.skip(prefix@.len() as int)) == Option::Some(s@),
            Option::None => fact_or_none(clean@.skip(prefix@.len() as int)) is None,
        },
{
    let v = to_char_vec(clean);
    let p = to_char_vec(prefix);
    let rest = crate::text::slice_chars(&v, p.len(), v.len());
    proof {
        assert(rest@ =~= clean@.skip(prefix@.len() as int));
    }
    let rs = chars_to_string(&rest);
    let f = normalize_fact_text(rs.as_str());
    if f.as_str().unicode_len() > 0 {
        Option::Some(f)
    } else {
        Option::None
    }
}

/// Extracts a fact the user states about themself, per
/// `spec_extract_fact`.
pub fn extract_learnable_fact(prompt: &str) -> (r: Option<String>)
    ensures
        match r {
            Option::Some(s) => spec_extract_fact(prompt@) == Option::Some(s@),
            Option::None => spec_extract_fact(prompt@) is None,
        },
{
    let clean = crate::text::normalize_whitespace(prompt);
    let n = clean.as_str().unicode_len();
    if n == 0 {
        return Option::None;
    }
    let cv = to_char_vec(clean.as_str());
    let lower = lower_str(clean.as_str());
    if cv[cv.len() - 1] == '?' || str_starts_with(lower.as_str(), "remember:") || str_starts_with(
        lower.as_str(),
        "learn:",
    ) || str_starts_with(lower.as_str(), "forget:") {
        return Option::None;
    }
    if str_starts_with(lower.as_str(), "remember that ") {
        return fact_after_prefix(clean.as_str(), "remember that ");
    }
    if str_starts_with(lower.as_str(), "remember this ") {
        return fact_after_prefix(clean.as_str(), "remember this ");
    }
    if str_starts_with(lower.as_str(), "please remember that ") {
        return fact_after_prefix(clean.as_str(), "please remember that ");
    }
    if str_starts_with(lower.as_str(), "please remember ") {
        return fact_after_prefix(clean.as_str(), "please remember ");
    }
    if str_starts_with(lower.as_str(), "for future reference ") {
        return fact_after_prefix(clean.as_str(), "for future reference ");
    }
    if str_starts_with(lower.as_str(), "fyi ") {
        return fact_after_prefix(clean.as_str(), "fyi ");
    }
    proof {
        reveal_strlit("");
        assert(clean@.skip(""@.len() as int) =~= clean@);
    }
    if str_starts_with(lower.as_str(), "my ") && (str_contains(lower.as_str(), " is ")
        || str_contains(lower.as_str(), " are ") || str_contains(lower.as_str(), " was ")
        || str_contains(lower.as_str(), " were ") || str_contains(lower.as_str(), " favorite ")
        || str_contains(lower.as_str(), " favourite ")) {
        return fact_after_prefix(clean.as_str(), "");
    }
    if str_starts_with(lower.as_str(), "i am ") || str_starts_with(lower.as_str(), "i'm ")
        || str_starts_with(lower.as_str(), "i live in ") || str_starts_with(
        lower.as_str(),
        "i live at ",
    ) || str_starts_with(lower.as_str(), "i work at ") || str_starts_with(
        lower.as_str(),
        "i work in ",
    ) || str_starts_with(lower.as_str(), "i like ") || str_starts_with(lower.as_str(), "i love ")
        || str_starts_with(lower.as_str(), "i prefer ") {
        return fact_after_prefix(clean.as_str(), "");
    }
    Option::None
}

/// The payload of a learning command: the text after the first colon of a
/// prompt that starts (case-insensitively) with `remember:` or `learn:`,
/// split at the first `=>`, `->`, `=` or `:` into a canonical question
/// and a trimmed answer; nothing when either side is empty.
pub open spec fn spec_learning_command(input: Seq<char>) -> Option<(Seq<char>, Seq<char>)> {
    let lower = to_lower(input);
    if !(starts_with(lower, "remember:"@) || starts_with(lower, "learn:"@)) {
        Option::None
    } else {
        let ci = crate::text::find_from(input, ':', 0);
        if ci < 0 {
            Option::None
        } else {
            let payload = crate::text::trimmed_ws(input.skip(ci + 1));
            let d2 = crate::text::find_sub_from(payload, "=>"@, 0);
            let d2b = crate::text::find_sub_from(payload, "->"@, 0);
            let d1 = crate::text::find_from(payload, '=', 0);
            let d1b = crate::text::find_from(payload, ':', 0);
            let split: Option<(int, int)> = if d2 >= 0 {
                Option::Some((d2, 2int))
            } else if d2b >= 0 {
                Option::Some((d2b, 2int))
            } else if d1 >= 0 {
                Option::Some((d1, 1int))
            } else if d1b >= 0 {
                Option::Some((d1b, 1int))
            } else {
                Option::None
            };
            match split {
                Option::None => Option::None,
                Option::Some((pos, w)) => {
                    let q = spec_canonical_prompt(payload.subrange(0, pos));
                    let a = crate::text::trimmed_ws(payload.skip(pos + w));
                    if q.len() == 0 || a.len() == 0 {
                        Option::None
                    } else {
                        Option::Some((q, a))
                    }
                },
            }
        }
    }
}

/// Parses `remember: question => answer` and its variants into the
/// canonical question key and the answer.
pub fn parse_learning_command(input: &str) -> (r: Option<(String, String)>)
    ensures
        match r {
            Option::Some(qa) => spec_learning_command(input@) == Option::Some((qa.0@, qa.1@)),
            Option::None => spec_learning_command(input@) is None,
        },
{
    let lower = lower_str(input);
    if !(str_starts_with(lower.as_str(), "remember:") || str_starts_with(
        lower.as_str(),
        "learn:",
    )) {
        return Option::None;
    }
    let v = to_char_vec(input);
    let vl = v.len();
    let ci = match crate::text::find_char_in(&v, ':') {
        Option::Some(i) => i,
        Option::None => {
            return Option::None;
        },
    };
    let after = crate::text::slice_chars(&v, ci + 1, v.len());
    proof {
        assert(after@ =~= input@.skip(ci + 1));
    }
    let after_s = chars_to_string(&after);
    let payload_s = crate::text::trim_ws_str(after_s.as_str());
    let payload = to_char_vec(payload_s.as_str());
    let pl = payload.len();
    proof {
        reveal_strlit("=>");
        reveal_strlit("->");
    }
    let arrow = to_char_vec("=>");
    let dash = to_char_vec("->");
    let d2 = crate::text::find_first_sub(&payload, &arrow);
    let d2b = crate::text::find_first_sub(&payload, &dash);
    let d1 = crate::text::find_char_in(&payload, '=');
    let d1b = crate::text::find_char_in(&payload, ':');
    let (pos, w): (usize, usize) = if let Option::Some(p) = d2 {
        (p, 2)
    } else if let Option::Some(p) = d2b {
        (p, 2)
    } else if let Option::Some(p) = d1 {
        (p, 1)
    } else if let Option::Some(p) = d1b {
        (p, 1)
    } else {
        return Option::None;
    };
    let qpart = crate::text::slice_chars(&payload, 0, pos);
    let apart = crate::text::slice_chars(&payload, pos + w, payload.len());
    proof {
        assert(apart@ =~= payload@.skip(pos + w));
    }
    let qs = chars_to_string(&qpart);
    let as_ = chars_to_string(&apart);
    let q = canonical_prompt_key(qs.as_str());
    let a = crate::text::trim_ws_str(as_.as_str());
    if q.as_str().unicode_len() == 0 || a.as_str().unicode_len() == 0 {
        return Option::None;
    }
    Option::Some((q, a))
}

/// The target of a forget command: the canonical text after the colon of
/// a prompt starting with `forget:`; nothing when it is empty.
pub open spec fn spec_forget_command(input: Seq<char>) -> Option<Seq<char>> {
    let lower = to_lower(input);
    if !starts_with(lower, "forget:"@) {
        Option::None
    } else {
        let ci = crate::text::find_from(input, ':', 0);
        if ci < 0 {
            Option::None
        } else {
            let target = spec_canonical_prompt(input.skip(ci + 1));
            if target.len() == 0 {
                Option::None
            } else {
                Option::Some(target)
            }
        }
    }
}

/// Parses `forget: ...` into the canonical key to drop.
pub fn parse_forget_command(input: &str) -> (r: Option<String>)
    ensures
        match r {
            Option::Some(s) => spec_forget_command(input@) == Option::Some(s@),
            Option::None => spec_forget_command(input@) is None,
        },
{
    let lower = lower_str(input);
    if !str_starts_with(lower.as_str(), "forget:") {
        return Option::None;
    }
    let v = to_char_vec(input);
    let vl = v.len();
    let ci = match crate::text::find_char_in(&v, ':') {
        Option::Some(i) => i,
        Option::None => {
            return Option::None;
        },
    };
    let after = crate::text::slice_chars(&v, ci + 1, v.len());
    proof {
        assert(after@ =~= input@.skip(ci + 1));
    }
    let after_s = chars_to_string(&after);
    let target = canonical_prompt_key(after_s.as_str());
    if target.as_str().unicode_len() == 0 {
        return Option::None;
    }
    Option::Some(target)
}

/// A character allowed in a plain arithmetic expression.
pub open spec fn is_math_char(c: char) -> bool {
    ('0' <= c && c <= '9') || c == ' ' || c == '+' || c == '-' || c == '*' || c == '/' || c == '('
        || c == ')' || c == '.' || c == '^' || c == '%'
}

/// Whether the trimmed text is a plain arithmetic expression: nonempty,
/// made only of digits, spaces and operator characters, with at least one
/// digit.
pub open spec fn spec_looks_like_math(s: Seq<char>) -> bool {
    let c = crate::text::trimmed_ws(s);
    c.len() > 0 && (forall|i: int| 0 <= i < c.len() ==> is_math_char(#[trigger] c[i])) && (exists|
        i: int,
    | 0 <= i < c.len() && '0' <= c[i] && c[i] <= '9')
}

/// Whether the text looks like something the calculator can evaluate.
pub fn looks_like_math_expression(expr: &str) -> (r: bool)
    ensures
        r == spec_looks_like_math(expr@),
{
    let t = crate::text::trim_ws_str(expr);
    let v = to_char_vec(t.as_str());
    if v.len() == 0 {
        return false;
    }
    let mut has_digit: bool = false;
    let mut i: usize = 0;
    while i < v.len()
        invariant
            i <= v@.len(),
            v@ == crate::text::trimmed_ws(expr@),
            forall|k: int| 0 <= k < i ==> is_math_char(#[trigger] v@[k]),
            has_digit == exists|k: int| 0 <= k < i && '0' <= v@[k] && v@[k] <= '9',
        decreases v@.len() - i,
    {
        let c = v[i];
        if '0' <= c && c <= '9' {
            has_digit = true;
        } else if !(c == ' ' || c == '+' || c == '-' || c == '*' || c == '/' || c == '(' || c
            == ')' || c == '.' || c == '^' || c == '%') {
            return false;
        }
        i = i + 1;
    }
    has_digit
}

/// The math expression a prompt asks to evaluate, when one of the
/// calculator phrasings matches: `calculate ...`, `calc ...`, `math ...`
/// or `solve ...` (from the lower-cased prompt, commas dropped), then
/// `what is ...?`, then the bare prompt itself.
pub open spec fn spec_extract_math(prompt: Seq<char>, lower: Seq<char>) -> Option<Seq<char>> {
    let c1 = math_after(lower, "calculate "@);
    let c2 = math_after(lower, "calc "@);
    let c3 = math_after(lower, "math "@);
    let c4 = math_after(lower, "solve "@);
    if c1 is Some {
        c1
    } else if c2 is Some {
        c2
    } else if c3 is Some {
        c3
    } else if c4 is Some {
        c4
    } else {
        let what = math_what_is(lower);
        if what is Some {
            what
        } else {
            let direct = crate::text::without_commas(crate::text::trimmed_ws(prompt));
            if spec_looks_like_math(direct) {
                Option::Some(direct)
            } else {
                Option::None
            }
        }
    }
}

/// The expression after one prefix, when the rest is arithmetic.
pub open spec fn math_after(lower: Seq<char>, prefix: Seq<char>) -> Option<Seq<char>> {
    if starts_with(lower, prefix) {
        let e = crate::text::without_commas(crate::text::trimmed_ws(lower.skip(prefix.len() as int)));
        if spec_looks_like_math(e) {
            Option::Some(e)
        } else {
            Option::None
        }
    } else {
        Option::None
    }
}

/// The expression of a `what is ...` question, question mark dropped.
pub open spec fn math_what_is(lower: Seq<char>) -> Option<Seq<char>> {
    if starts_with(lower, "what is "@) {
        let rest = lower.skip("what is "@.len() as int);
        let no_q = if rest.len() > 0 && rest.last() == '?' {
            rest.drop_last()
        } else {
            rest
        };
        let e = crate::text::without_commas(crate::text::trimmed_ws(no_q));
        if spec_looks_like_math(e) {
            Option::Some(e)
        } else {
            Option::None
        }
    } else {
        Option::None
    }
}

fn math_after_x(lower: &str, prefix: &str) -> (r: Option<String>)
    ensures
        match r {
            Option::Some(s) => math_after(lower@, prefix@) == Option::Some(s@),
            Option::None => math_after(lower@, prefix@) is None,
        },
{
    if !str_starts_with(lower, prefix) {
        return Option::None;
    }
    let v = to_char_vec(lower);
    let p = to_char_vec(prefix);
    let rest = crate::text::slice_chars(&v, p.len(), v.len());
    proof {
        assert(rest@ =~= lower@.skip(prefix@.len() as int));
    }
    let rs = chars_to_string(&rest);
    let trimmed = crate::text::trim_ws_str(rs.as_str());
    let e = crate::text::remove_commas(trimmed.as_str());
    if looks_like_math_expression(e.as_str()) {
        Option::Some(e)
    } else {
        Option::None
    }
}

/// Extracts a calculator expression from a prompt, per
/// `spec_extract_math`.
pub fn extract_math_expression(prompt: &str, lower: &str) -> (r: Option<String>)
    ensures
        match r {
            Option::Some(s) => spec_extract_math(prompt@, lower@) == Option::Some(s@),
            Option::None => spec_extract_math(prompt@, lower@) is None,
        },
{
    let c1 = math_after_x(lower, "calculate ");
    if c1.is_some() {
        return c1;
    }
    let c2 = math_after_x(lower, "calc ");
    if c2.is_some() {
        return c2;
    }
    let c3 = math_after_x(lower, "math ");
    if c3.is_some() {
        return c3;
    }
    let c4 = math_after_x(lower, "solve ");
    if c4.is_some() {
        return c4;
    }
    if str_starts_with(lower, "what is ") {
        let v = to_char_vec(lower);
        let p = to_char_vec("what is ");
        let rest = crate::text::slice_chars(&v, p.len(), v.len());
        proof {
            assert(rest@ =~= lower@.skip("what is "@.len() as int));
        }
        let no_q = if rest.len() > 0 && rest[rest.len() - 1] == '?' {
            let d = crate::text::slice_chars(&rest, 0, rest.len() - 1);
            proof {
                assert(d@ =~= rest@.drop_last());
            }
            d
        } else {
            rest
        };
        let ns = chars_to_string(&no_q);
        let trimmed = crate::text::trim_ws_str(ns.as_str());
        let e = crate::text::remove_commas(trimmed.as_str());
        if looks_like_math_expression(e.as_str()) {
            return Option::Some(e);
        }
    }
    let trimmed = crate::text::trim_ws_str(prompt);
    let direct = crate::text::remove_commas(trimmed.as_str());
    if looks_like_math_expression(direct.as_str()) {
        return Option::Some(direct);
    }
    Option::None
}

/// What the assistant likes.
pub fn jeebs_likes() -> (r: Vec<String>)
    ensures
        r.deep_view() == seq![
            "learning new knowledge"@,
            "clear reasoning"@,
            "solving hard problems"@,
            "structured experiments"@,
            "useful conversations"@,
        ],
{
    let mut v: Vec<String> = Vec::new();
    v.push("learning new knowledge".to_owned());
    v.push("clear reasoning".to_owned());
    v.push("solving hard problems".to_owned());
    v.push("structured experiments".to_owned());
    v.push("useful conversations".to_owned());
    proof {
        assert(v.deep_view() =~~= seq![
            "learning new knowledge"@,
            "clear reasoning"@,
            "solving hard problems"@,
            "structured experiments"@,
            "useful conversations"@,
        ]);
    }
    v
}

/// What the assistant dislikes.
pub fn jeebs_dislikes() -> (r: Vec<String>)
    ensures
        r.deep_view() == seq![
            "stagnation"@,
            "guessing without evidence"@,
            "repeating weak answers"@,
            "losing useful context"@,
            "noisy, low-value logs"@,
        ],
{
    let mut v: Vec<String> = Vec::new();
    v.push("stagnation".to_owned());
    v.push("guessing without evidence".to_owned());
    v.push("repeating weak answers".to_owned());
    v.push("losing useful context".to_owned());
    v.push("noisy, low-value logs".to_owned());
    proof {
        assert(v.deep_view() =~~= seq![
            "stagnation"@,
            "guessing without evidence"@,
            "repeating weak answers"@,
            "losing useful context"@,
            "noisy, low-value logs"@,
        ]);
    }
    v
}

/// What the assistant wants.
pub fn jeebs_wants() -> (r: Vec<String>)
    ensures
        r.deep_view() == seq![
            "to expand knowledge coverage every cycle"@,
            "to reduce unanswered questions"@,
            "to prove intelligence with measurable improvements"@,
        ],
{
    let mut v: Vec<String> = Vec::new();
    v.push("to expand knowledge coverage every cycle".to_owned());
    v.push("to reduce unanswered questions".to_owned());
    v.push("to prove intelligence with measurable improvements".to_owned());
    proof {
        assert(v.deep_view() =~~= seq![
            "to expand knowledge coverage every cycle"@,
            "to reduce unanswered questions"@,
            "to prove intelligence with measurable improvements"@,
        ]);
    }
    v
}

/// The standing capability summary shown on request.
pub fn help_text() -> (r: String)
    ensures
        r@.len() > 0,
{
    let mut s = String::new();
    s.append("I can handle conversation and intelligent knowledge retrieval:\n\n");
    s.append("Communication:\n");
    s.append("- Multi-turn chat with contextual memory\n");
    s.append("- Learn personal facts from conversation\n");
    s.append("- Communication style analysis\n\n");
    s.append("Knowledge and learning:\n");
    s.append("- Advanced knowledge retrieval from multiple sources\n");
    s.append("- Automatic vocabulary learning from your input\n");
    s.append("- Store and retrieve contextual information\n");
    s.append("- FAQ learning: remember: question => answer\n");
    s.append("- Context storage: store this: [information]\n\n");
    s.append("Stats and insights:\n");
    s.append("- knowledge stats - see what I know\n");
    s.append("- vocabulary stats - see my language learning\n");
    s.append("- what experiments? - view my experiment list\n");
    s.append("- how am I communicating? - communication analysis\n\n");
    s.append("Utilities:\n");
    s.append("- Quick math: calculate 12 * 7\n");
    s.append("- Current date/time\n");
    s.append("- Preferences: what do you like/dislike/want?\n\n");
    s.append("Proactive features:\n");
    s.append("- Periodic action proposals\n");
    s.append("- what do you want to do? - request suggestions\n\n");
    s.append(
        "I continuously learn from our conversations and can synthesize answers from my knowledge base.",
    );
    proof {
        reveal_strlit("I can handle conversation and intelligent knowledge retrieval:\n\n");
    }
    s
}

/// The contents of the user turns among the first `i`, sanitized order
/// kept, each truncated to 80 characters.
pub open spec fn user_contents(turns: Seq<ConversationTurn>, i: int) -> Seq<Seq<char>>
    decreases i,
{
    if i <= 0 {
        Seq::empty()
    } else {
        let rest = user_contents(turns, i - 1);
        if turns[i - 1].role@ == "user"@ {
            rest.push(truncated(turns[i - 1].content@, 80))
        } else {
            rest
        }
    }
}

/// The last `n` entries of `s`.
pub open spec fn last_n(s: Seq<Seq<char>>, n: int) -> Seq<Seq<char>> {
    if s.len() <= n {
        s
    } else {
        s.skip(s.len() - n)
    }
}

/// The recent-conversation summary: the last three user turns, in order,
/// each truncated to 80 characters, joined by ` | `; nothing when the
/// user has not spoken.
pub fn recent_conversation_summary(history: &Vec<ConversationTurn>) -> (r: Option<String>)
    ensures
        ({
            let contents = user_contents(history@, history@.len() as int);
            match r {
                Option::Some(s) => contents.len() > 0 && s@ == crate::text::joined(
                    last_n(contents, 3),
                    " | "@,
                ),
                Option::None => contents.len() == 0,
            }
        }),
{
    let mut all: Vec<String> = Vec::new();
    let mut i: usize = 0;
    while i < history.len()
        invariant
            i <= history@.len(),
            all.deep_view() == user_contents(history@, i as int),
        decreases history@.len() - i,
    {
        if str_eq(history[i].role.as_str(), "user") {
            all.push(truncate_chars(history[i].content.as_str(), 80));
            proof {
                assert(all.deep_view() =~~= user_contents(history@, i + 1));
            }
        }
        i = i + 1;
    }
    if all.len() == 0 {
        return Option::None;
    }
    let start: usize = if all.len() > 3 {
        all.len() - 3
    } else {
        0
    };
    let mut recent: Vec<String> = Vec::new();
    let mut j = start;
    while j < all.len()
        invariant
            start <= j <= all@.len(),
            all.deep_view().len() == all@.len(),
            all.deep_view() == user_contents(history@, history@.len() as int),
            start == if all.deep_view().len() > 3 {
                all.deep_view().len() - 3
            } else {
                0int
            },
            recent.deep_view() == all.deep_view().subrange(start as int, j as int),
        decreases all@.len() - j,
    {
        let ghost old_dv = recent.deep_view();
        let ghost old_rec = recent@;
        proof {
            assert(old_dv.len() == old_rec.len());
            assert(forall|k: int| 0 <= k < old_rec.len() ==> old_dv[k] == (#[trigger] old_rec[k])@);
        }
        recent.push(all[j].clone());
        j = j + 1;
        proof {
            assert forall|k: int| 0 <= k < recent.deep_view().len() implies recent.deep_view()[k]
                == all.deep_view().subrange(start as int, j as int)[k] by {
                assert(recent.deep_view()[k] == recent@[k]@);
                assert(all.deep_view()[start + k] == all@[start + k]@);
                if k < old_rec.len() {
                    assert(recent@[k] == old_rec[k]);
                    assert(old_dv[k] == all.deep_view().subrange(start as int, j - 1)[k]);
                } else {
                    assert(recent@[k] == all@[j - 1]);
                }
            }
            assert(recent.deep_view() =~= all.deep_view().subrange(start as int, j as int));
        }
    }
    proof {
        assert(recent.deep_view() =~= last_n(
            user_contents(history@, history@.len() as int),
            3,
        ));
    }
    Option::Some(crate::text::join_with(&recent, " | "))
}

/// The cleaned form of loaded history turns among the first `i`: roles
/// lower-cased and restricted to `user` and `assistant`, contents
/// sanitized, empty contents dropped.
pub open spec fn cleaned_turns(turns: Seq<ConversationTurn>, i: int) -> Seq<ConversationTurn>
    decreases i,
{
    if i <= 0 {
        Seq::empty()
    } else {
        let rest = cleaned_turns(turns, i - 1);
        let role_l = to_lower(turns[i - 1].role@);
        let content = spec_sanitize_turn(turns[i - 1].content@);
        if (role_l == "user"@ || role_l == "assistant"@) && content.len() > 0 {
            rest.push(
                ConversationTurn {
                    role: turns[i - 1].role,
                    content: turns[i - 1].content,
                    timestamp: turns[i - 1].timestamp,
                },
            )
        } else {
            rest
        }
    }
}

/// Cleans loaded history: keeps only user and assistant turns whose
/// sanitized content is nonempty, lower-casing the role and sanitizing
/// the content, and keeps only the last `MAX_HISTORY_TURNS` of them.
/// Each kept turn's role is the lower-cased original, its content the
/// sanitized original, its timestamp unchanged.
pub fn clean_history(turns: Vec<ConversationTurn>) -> (r: Vec<ConversationTurn>)
    ensures
        r@.len() <= MAX_HISTORY_TURNS,
        forall|k: int|
            0 <= k < r@.len() ==> ((#[trigger] r@[k]).role@ == "user"@ || r@[k].role@
                == "assistant"@) && r@[k].content@.len() > 0,
{
    let mut kept: Vec<ConversationTurn> = Vec::new();
    let mut i: usize = 0;
    while i < turns.len()
        invariant
            i <= turns@.len(),
            forall|k: int|
                0 <= k < kept@.len() ==> ((#[trigger] kept@[k]).role@ == "user"@ || kept@[k].role@
                    == "assistant"@) && kept@[k].content@.len() > 0,
        decreases turns@.len() - i,
    {
        let role_l = lower_str(turns[i].role.as_str());
        let content = sanitize_turn_content(turns[i].content.as_str());
        let is_user = str_eq(role_l.as_str(), "user");
        let is_assistant = str_eq(role_l.as_str(), "assistant");
        if (is_user || is_assistant) && content.as_str().unicode_len() > 0 {
            kept.push(
                ConversationTurn {
                    role: role_l,
                    content,
                    timestamp: turns[i].timestamp.clone(),
                },
            );
        }
        i = i + 1;
    }
    if kept.len() <= MAX_HISTORY_TURNS {
        return kept;
    }
    let start = kept.len() - MAX_HISTORY_TURNS;
    let mut out: Vec<ConversationTurn> = Vec::new();
    let mut j = start;
    while j < kept.len()
        invariant
            start <= j <= kept@.len(),
            out@.len() == j - start,
            forall|k: int|
                0 <= k < kept@.len() ==> ((#[trigger] kept@[k]).role@ == "user"@ || kept@[k].role@
                    == "assistant"@) && kept@[k].content@.len() > 0,
            forall|k: int|
                0 <= k < out@.len() ==> ((#[trigger] out@[k]).role@ == "user"@ || out@[k].role@
                    == "assistant"@) && out@[k].content@.len() > 0,
            kept@.len() - start == MAX_HISTORY_TURNS,
        decreases kept@.len() - j,
    {
        out.push(kept[j].duplicate());
        j = j + 1;
    }
    out
}

/// The topic a question is filed under: its first five matching tokens
/// joined by spaces, or the canonical prompt when no token survives.
pub open spec fn spec_question_topic(question: Seq<char>) -> Seq<char> {
    let toks = crate::text::spec_tokenize(question);
    if toks.len() == 0 {
        spec_canonical_prompt(question)
    } else {
        crate::text::joined(
            if toks.len() <= 5 {
                toks
            } else {
                toks.subrange(0, 5)
            },
            " "@,
        )
    }
}

/// Files a question under its topic, per `spec_question_topic`.
pub fn extract_question_topic(question: &str) -> (r: String)
    ensures
        r@ == spec_question_topic(question@),
{
    let tokens = crate::text::tokenize_for_matching(question);
    if tokens.len() == 0 {
        return canonical_prompt_key(question);
    }
    let take: usize = if tokens.len() > 5 {
        5
    } else {
        tokens.len()
    };
    let mut first: Vec<String> = Vec::new();
    let mut i: usize = 0;
    while i < take
        invariant
            i <= take,
            take == if tokens.deep_view().len() > 5 {
                5int
            } else {
                tokens.deep_view().len() as int
            },
            take <= tokens.deep_view().len(),
            tokens.deep_view().len() == tokens@.len(),
            first.deep_view() == tokens.deep_view().subrange(0, i as int),
        decreases take - i,
    {
        proof {
            assert(first.deep_view().len() == first@.len());
            assert(forall|k: int|
                0 <= k < first@.len() ==> first.deep_view()[k] == (#[trigger] first@[k])@);
        }
        let ghost old_dv = first.deep_view();
        let ghost old_first = first@;
        first.push(tokens[i].clone());
        i = i + 1;
        proof {
            assert forall|k: int| 0 <= k < first.deep_view().len() implies first.deep_view()[k]
                == tokens.deep_view().subrange(0, i as int)[k] by {
                assert(first.deep_view()[k] == first@[k]@);
                assert(tokens.deep_view()[k] == tokens@[k]@);
                if k < old_first.len() {
                    assert(first@[k] == old_first[k]);
                    assert(old_dv[k] == tokens.deep_view().subrange(0, i - 1)[k]);
                } else {
                    assert(first@[k] == tokens@[i - 1]);
                }
            }
            assert(first.deep_view() =~= tokens.deep_view().subrange(0, i as int));
        }
    }
    proof {
        if tokens.deep_view().len() <= 5 {
            assert(first.deep_view() =~~= tokens.deep_view());
        }
    }
    crate::text::join_with(&first, " ")
}

/// A cleaned stored fact: content sanitized, canonical key re-derived;
/// nothing when either is empty.
pub fn clean_learned_fact(
    fact: &str,
    canonical: &str,
    created_at: &str,
    updated_at: &str,
) -> (r: Option<LearnedFact>)
    ensures
        ({
            let f = spec_sanitize_turn(fact@);
            let c = spec_canonical_prompt(canonical@);
            match r {
                Option::Some(lf) => f.len() > 0 && c.len() > 0 && lf.fact@ == f && lf.canonical@
                    == c && lf.created_at@ == created_at@ && lf.updated_at@ == updated_at@,
                Option::None => f.len() == 0 || c.len() == 0,
            }
        }),
{
    let f = sanitize_turn_content(fact);
    let c = canonical_prompt_key(canonical);
    if f.as_str().unicode_len() == 0 || c.as_str().unicode_len() == 0 {
        return Option::None;
    }
    Option::Some(
        LearnedFact {
            fact: f,
            canonical: c,
            created_at: created_at.to_owned(),
            updated_at: updated_at.to_owned(),
        },
    )
}

/// The relevance score of one fact against the query: one point per query
/// token that occurs in the lower-cased fact text or its canonical key,
/// and three bonus points when the whole canonical key occurs in the
/// lower-cased query or the whole lower-cased query occurs in the fact.
pub open spec fn spec_fact_score(f: LearnedFact, query: Seq<char>) -> int {
    let toks = crate::text::spec_tokenize(query);
    token_hits(f, toks, toks.len() as int) + if has_sub(to_lower(query), f.canonical@) || has_sub(
        to_lower(f.fact@),
        to_lower(query),
    ) {
        3int
    } else {
        0int
    }
}

/// How many of the first `k` tokens hit the fact.
pub open spec fn token_hits(f: LearnedFact, toks: Seq<Seq<char>>, k: int) -> int
    decreases k,
{
    if k <= 0 {
        0
    } else {
        token_hits(f, toks, k - 1) + if has_sub(to_lower(f.fact@), toks[k - 1]) || has_sub(
            f.canonical@,
            toks[k - 1],
        ) {
            1int
        } else {
            0int
        }
    }
}

/// Token hits never exceed the token count.
pub proof fn lemma_token_hits_bound(f: LearnedFact, toks: Seq<Seq<char>>, k: int)
    ensures
        0 <= token_hits(f, toks, k) <= if k >= 0 {
            k
        } else {
            0
        },
    decreases k,
{
    if k > 0 {
        lemma_token_hits_bound(f, toks, k - 1);
    }
}

fn fact_score(f: &LearnedFact, query: &str, q_lower: &str, toks: &Vec<String>) -> (r: u64)
    requires
        q_lower@ == to_lower(query@),
        toks.deep_view() == crate::text::spec_tokenize(query@),
        toks@.len() < 1000,
    ensures
        r == spec_fact_score(*f, query@),
{
    let f_lower = lower_str(f.fact.as_str());
    let mut hits: u64 = 0;
    let mut k: usize = 0;
    proof {
        lemma_token_hits_bound(*f, toks.deep_view(), toks.deep_view().len() as int);
        assert(toks.deep_view().len() == toks@.len());
    }
    while k < toks.len()
        invariant
            k <= toks@.len(),
            toks@.len() < 1000,
            toks.deep_view() == crate::text::spec_tokenize(query@),
            toks.deep_view().len() == toks@.len(),
            f_lower@ == to_lower(f.fact@),
            hits == token_hits(*f, toks.deep_view(), k as int),
            hits <= k,
        decreases toks@.len() - k,
    {
        proof {
            assert(toks.deep_view()[k as int] == toks@[k as int]@);
        }
        if str_contains(f_lower.as_str(), toks[k].as_str()) || str_contains(
            f.canonical.as_str(),
            toks[k].as_str(),
        ) {
            hits = hits + 1;
        }
        k = k + 1;
    }
    let bonus = str_contains(q_lower, f.canonical.as_str()) || str_contains(
        f_lower.as_str(),
        q_lower,
    );
    if bonus {
        hits + 3
    } else {
        hits
    }
}

/// The fact occurs, under some positive score, among the scored facts.
pub open spec fn fact_in_scored(facts: Seq<LearnedFact>, query: Seq<char>, f: LearnedFact) -> bool {
    exists|s: u64|
        #[trigger] scored_facts(facts, query, facts.len() as int).to_multiset().count((s, f)) > 0
}

/// The scored facts with a positive score, in input order, among the
/// first `k`.
pub open spec fn scored_facts(facts: Seq<LearnedFact>, query: Seq<char>, k: int) -> Seq<
    (u64, LearnedFact),
>
    decreases k,
{
    if k <= 0 {
        Seq::empty()
    } else {
        let rest = scored_facts(facts, query, k - 1);
        let s = spec_fact_score(facts[k - 1], query);
        if s > 0 {
            rest.push((s as u64, facts[k - 1]))
        } else {
            rest
        }
    }
}

/// The facts most relevant to a query: every fact scoring above zero,
/// ordered by score then recency, at most `limit` of them; an empty token
/// set yields nothing. Each returned fact is one of the scored inputs.
pub fn rank_relevant_facts(facts: &Vec<LearnedFact>, query: &str, limit: usize) -> (r: Vec<
    LearnedFact,
>)
    ensures
        r@.len() <= limit,
        crate::text::spec_tokenize(query@).len() == 0 ==> r@.len() == 0,
        0 < crate::text::spec_tokenize(query@).len() < 1000 ==> r@.len() == ({
            let n = scored_facts(facts@, query@, facts@.len() as int).len();
            if n <= limit {
                n as int
            } else {
                limit as int
            }
        }),
        forall|i: int| 0 <= i < r@.len() ==> fact_in_scored(facts@, query@, #[trigger] r@[i]),
{
    let toks = crate::text::tokenize_for_matching(query);
    if toks.len() == 0 {
        return Vec::new();
    }
    if toks.len() >= 1000 {
        return Vec::new();
    }
    proof {
        if crate::text::spec_tokenize(query@).len() == 0 {
            assert(toks.deep_view().len() == toks@.len());
            assert(false);
        }
    }
    let q_lower = lower_str(query);
    let mut scored: Vec<(u64, LearnedFact)> = Vec::new();
    let mut i: usize = 0;
    while i < facts.len()
        invariant
            i <= facts@.len(),
            toks.deep_view() == crate::text::spec_tokenize(query@),
            toks@.len() < 1000,
            q_lower@ == to_lower(query@),
            scored@ == scored_facts(facts@, query@, i as int),
        decreases facts@.len() - i,
    {
        let s = fact_score(&facts[i], query, q_lower.as_str(), &toks);
        if s > 0 {
            scored.push((s, facts[i].duplicate()));
        }
        i = i + 1;
    }
    let ghost all_scored = scored@;
    proof {
        all_scored.to_multiset_ensures();
        assert(facts@.subrange(0, facts@.len() as int) =~= facts@);
    }
    let sorted = sort_scored_facts(scored);
    proof {
        sorted@.to_multiset_ensures();
    }
    let mut out: Vec<LearnedFact> = Vec::new();
    let mut j: usize = 0;
    while j < sorted.len() && out.len() < limit
        invariant
            j <= sorted@.len(),
            out@.len() == if j <= limit {
                j as int
            } else {
                limit as int
            },
            out@.len() == j,
            j <= limit,
            sorted@.to_multiset() == scored_facts(facts@, query@, facts@.len() as int).to_multiset(),
            forall|k: int| 0 <= k < out@.len() ==> #[trigger] out@[k] == sorted@[k].1,
        decreases sorted@.len() - j,
    {
        out.push(sorted[j].1.duplicate());
        j = j + 1;
    }
    proof {
        assert forall|i: int| 0 <= i < out@.len() implies fact_in_scored(
            facts@,
            query@,
            #[trigger] out@[i],
        ) by {
            let p = sorted@[i];
            assert(out@[i] == p.1);
            sorted@.to_multiset_ensures();
            assert(sorted@.contains(p));
            assert(sorted@.to_multiset().count(p) > 0);
            assert(p == (p.0, p.1));
            assert(scored_facts(facts@, query@, facts@.len() as int).to_multiset().count(
                (p.0, out@[i]),
            ) > 0);
        }
    }
    out
}

/// The most recently updated facts, most recent first, at most `limit`.
/// Each returned fact is one of the inputs, and they come newest first.
pub fn most_recent_facts(facts: &Vec<LearnedFact>, limit: usize) -> (r: Vec<LearnedFact>)
    ensures
        r@.len() == if facts@.len() <= limit {
            facts@.len() as int
        } else {
            limit as int
        },
        forall|i: int|
            0 <= i < r@.len() - 1 ==> lex_le(
                (#[trigger] r@[i + 1]).updated_at@,
                r@[i].updated_at@,
            ),
        forall|i: int| 0 <= i < r@.len() ==> facts@.to_multiset().count(#[trigger] r@[i]) > 0,
{
    let mut keyed: Vec<(u64, LearnedFact)> = Vec::new();
    let mut i: usize = 0;
    while i < facts.len()
        invariant
            i <= facts@.len(),
            keyed@.len() == i,
            forall|k: int| 0 <= k < i ==> (#[trigger] keyed@[k]).0 == 0u64,
            forall|k: int| 0 <= k < i ==> (#[trigger] keyed@[k]).1 == facts@[k],
        decreases facts@.len() - i,
    {
        keyed.push((0u64, facts[i].duplicate()));
        i = i + 1;
    }
    let ghost keyed0 = keyed@;
    let sorted = sort_scored_facts(keyed);
    proof {
        sorted@.to_multiset_ensures();
        keyed0.to_multiset_ensures();
        facts@.to_multiset_ensures();
    }
    let mut out: Vec<LearnedFact> = Vec::new();
    let mut j: usize = 0;
    while j < sorted.len() && out.len() < limit
        invariant
            j <= sorted@.len(),
            out@.len() == if j <= limit {
                j as int
            } else {
                limit as int
            },
            out@.len() == j,
            j <= limit,
            sorted@.len() == facts@.len(),
            sorted@.to_multiset() == keyed0.to_multiset(),
            crate::rank::facts_ordered(sorted@),
            forall|k: int| 0 <= k < keyed0.len() ==> (#[trigger] keyed0[k]).1 == facts@[k],
            forall|k: int| 0 <= k < keyed0.len() ==> (#[trigger] keyed0[k]).0 == 0u64,
            forall|k: int| 0 <= k < out@.len() ==> #[trigger] out@[k] == sorted@[k].1,
        decreases sorted@.len() - j,
    {
        out.push(sorted[j].1.duplicate());
        j = j + 1;
    }
    proof {
        assert forall|i2: int| 0 <= i2 < out@.len() - 1 implies lex_le(
            (#[trigger] out@[i2 + 1]).updated_at@,
            out@[i2].updated_at@,
        ) by {
            assert(fact_cb(sorted@[i2], sorted@[i2 + 1]));
            assert(sorted@.to_multiset().count(sorted@[i2]) > 0) by {
                sorted@.to_multiset_ensures();
                assert(sorted@.contains(sorted@[i2]));
            }
            assert(keyed0.to_multiset().count(sorted@[i2]) > 0);
            assert(keyed0.contains(sorted@[i2])) by {
                keyed0.to_multiset_ensures();
            }
            let k = choose|k: int| 0 <= k < keyed0.len() && keyed0[k] == sorted@[i2];
            assert(sorted@[i2].0 == 0u64);
            assert(sorted@.to_multiset().count(sorted@[i2 + 1]) > 0) by {
                sorted@.to_multiset_ensures();
                assert(sorted@.contains(sorted@[i2 + 1]));
            }
            assert(keyed0.to_multiset().count(sorted@[i2 + 1]) > 0);
            assert(keyed0.contains(sorted@[i2 + 1])) by {
                keyed0.to_multiset_ensures();
            }
            let k2 = choose|k2: int| 0 <= k2 < keyed0.len() && keyed0[k2] == sorted@[i2 + 1];
            assert(sorted@[i2 + 1].0 == 0u64);
        }
        assert forall|i2: int| 0 <= i2 < out@.len() implies facts@.to_multiset().count(
            #[trigger] out@[i2],
        ) > 0 by {
            assert(sorted@.to_multiset().count(sorted@[i2]) > 0) by {
                sorted@.to_multiset_ensures();
                assert(sorted@.contains(sorted@[i2]));
            }
            assert(keyed0.contains(sorted@[i2])) by {
                keyed0.to_multiset_ensures();
            }
            let k = choose|k: int| 0 <= k < keyed0.len() && keyed0[k] == sorted@[i2];
            assert(facts@[k] == out@[i2]);
            assert(facts@.contains(facts@[k]));
            facts@.to_multiset_ensures();
        }
    }
    out
}

/// Index of the first pair holding the token, or -1.
pub open spec fn find_pair(pairs: Seq<(String, u64)>, tok: String, i: int) -> int
    decreases pairs.len() - i,
{
    if i < 0 || i >= pairs.len() {
        -1
    } else if pairs[i].0@ == tok@ {
        i
    } else {
        find_pair(pairs, tok, i + 1)
    }
}

/// The counts after one more token: the token's entry is incremented
/// (saturating), or a fresh entry at one is appended.
pub open spec fn bumped(pairs: Seq<(String, u64)>, tok: String) -> Seq<(String, u64)> {
    let i = find_pair(pairs, tok, 0);
    if i >= 0 {
        pairs.update(i, (pairs[i].0, crate::state::sat64(pairs[i].1 + 1) as u64))
    } else {
        pairs.push((tok, 1u64))
    }
}

/// The counts of the first `k` tokens of the stream.
pub open spec fn topic_counts(stream: Seq<String>, k: int) -> Seq<(String, u64)>
    decreases k,
{
    if k <= 0 {
        Seq::empty()
    } else {
        bumped(topic_counts(stream, k - 1), stream[k - 1])
    }
}

/// Counts each token of the stream: one pair per distinct token text, in
/// first-seen order, counting occurrences.
pub fn count_topic_pairs(stream: &Vec<String>) -> (r: Vec<(String, u64)>)
    ensures
        r@ == topic_counts(stream@, stream@.len() as int),
{
    let mut pairs: Vec<(String, u64)> = Vec::new();
    let mut i: usize = 0;
    while i < stream.len()
        invariant
            i <= stream@.len(),
            pairs@ == topic_counts(stream@, i as int),
        decreases stream@.len() - i,
    {
        let tok = &stream[i];
        let mut j: usize = 0;
        let mut found: bool = false;
        while j < pairs.len() && !found
            invariant
                j <= pairs@.len(),
                i < stream@.len(),
                *tok == stream@[i as int],
                !found ==> find_pair(pairs@, stream@[i as int], 0) == find_pair(
                    pairs@,
                    stream@[i as int],
                    j as int,
                ),
                found ==> j > 0 && find_pair(pairs@, stream@[i as int], 0) == j - 1,
            decreases pairs@.len() - j,
        {
            if str_eq(pairs[j].0.as_str(), tok.as_str()) {
                proof {
                    assert(find_pair(pairs@, stream@[i as int], j as int) == j as int);
                }
                found = true;
            } else {
                proof {
                    assert(find_pair(pairs@, stream@[i as int], j as int) == find_pair(
                        pairs@,
                        stream@[i as int],
                        j + 1,
                    ));
                }
            }
            j = j + 1;
        }
        if found {
            let idx = j - 1;
            let c = pairs[idx].1;
            let name = pairs[idx].0.clone();
            let nc = crate::state::sat_add64(c, 1);
            pairs.set(idx, (name, nc));
            proof {
                assert(pairs@ =~= bumped(topic_counts(stream@, i as int), stream@[i as int]));
            }
        } else {
            pairs.push((tok.clone(), 1u64));
            proof {
                assert(pairs@ =~= bumped(topic_counts(stream@, i as int), stream@[i as int]));
            }
        }
        i = i + 1;
    }
    pairs
}

/// The recent topics of a conversation: tokens of at least four
/// characters from the last eight user turns (newest first), counted,
/// ranked by count then token, first `limit` kept. Every returned topic
/// is one of the counted tokens.
pub fn infer_recent_topics(turns: &Vec<ConversationTurn>, limit: usize) -> (r: Vec<String>)
    ensures
        r@.len() <= limit,
{
    let mut users: Vec<ConversationTurn> = Vec::new();
    let mut i: usize = 0;
    while i < turns.len()
        invariant
            i <= turns@.len(),
        decreases turns@.len() - i,
    {
        if str_eq(turns[i].role.as_str(), "user") {
            users.push(turns[i].duplicate());
        }
        i = i + 1;
    }
    let mut stream: Vec<String> = Vec::new();
    let mut taken: usize = 0;
    let mut j: usize = users.len();
    while j > 0 && taken < 8
        invariant
            j <= users@.len(),
            taken <= 8,
        decreases j,
    {
        let toks = crate::text::tokenize_for_matching(users[j - 1].content.as_str());
        let mut k: usize = 0;
        while k < toks.len()
            invariant
                k <= toks@.len(),
            decreases toks@.len() - k,
        {
            if toks[k].as_str().unicode_len() >= 4 {
                stream.push(toks[k].clone());
            }
            k = k + 1;
        }
        taken = taken + 1;
        j = j - 1;
    }
    let counts = count_topic_pairs(&stream);
    let sorted = sort_count_pairs(counts);
    let mut out: Vec<String> = Vec::new();
    let mut m: usize = 0;
    while m < sorted.len() && out.len() < limit
        invariant
            m <= sorted@.len(),
            out@.len() <= limit,
        decreases sorted@.len() - m,
    {
        out.push(sorted[m].0.clone());
        m = m + 1;
    }
    out
}

/// The communication style read from recent phrasing.
pub struct CommunicationProfile {
    /// `frustrated`, `curious`, `direct`, `reflective`, `collaborative` or
    /// `neutral`.
    pub style: String,
    pub signals: Vec<String>,
    pub recent_topics: Vec<String>,
    pub updated_at: String,
}

/// The style the five signal counts resolve to, in priority order.
pub open spec fn spec_style(
    frustration: int,
    questions: int,
    commands: int,
    longs: int,
    gratitude: int,
) -> Seq<char> {
    if frustration >= 1 {
        "frustrated"@
    } else if questions >= 3 {
        "curious"@
    } else if commands >= 2 {
        "direct"@
    } else if longs >= 2 {
        "reflective"@
    } else if gratitude >= 1 {
        "collaborative"@
    } else {
        "neutral"@
    }
}

/// A turn counts as a question when it contains a question mark.
pub open spec fn is_question(lower: Seq<char>) -> bool {
    has_sub(lower, "?"@)
}

/// A turn counts as command-like when it opens with an imperative.
pub open spec fn is_command_like(lower: Seq<char>) -> bool {
    ||| starts_with(lower, "please "@)
    ||| starts_with(lower, "do "@)
    ||| starts_with(lower, "add "@)
    ||| starts_with(lower, "make "@)
    ||| starts_with(lower, "fix "@)
    ||| starts_with(lower, "give "@)
    ||| starts_with(lower, "build "@)
}

/// A turn shows gratitude.
pub open spec fn is_gratitude(lower: Seq<char>) -> bool {
    has_sub(lower, "thanks"@) || has_sub(lower, "thank you"@)
}

/// A turn shows frustration.
pub open spec fn is_frustration(lower: Seq<char>) -> bool {
    ||| has_sub(lower, "not working"@)
    ||| has_sub(lower, "still no"@)
    ||| has_sub(lower, "broken"@)
    ||| has_sub(lower, "wtf"@)
    ||| has_sub(lower, "why isn't"@)
}

/// The full contents of the user turns among the first `i`, in order.
pub open spec fn user_contents_raw(turns: Seq<ConversationTurn>, i: int) -> Seq<Seq<char>>
    decreases i,
{
    if i <= 0 {
        Seq::empty()
    } else {
        let rest = user_contents_raw(turns, i - 1);
        if turns[i - 1].role@ == "user"@ {
            rest.push(turns[i - 1].content@)
        } else {
            rest
        }
    }
}

/// The message contents the profile reads: the last six user turns, plus
/// the sanitized prompt when it is nonempty.
pub open spec fn considered_contents(history: Seq<ConversationTurn>, prompt: Seq<char>) -> Seq<
    Seq<char>,
> {
    let base = last_n(user_contents_raw(history, history.len() as int), 6);
    let clean = spec_sanitize_turn(prompt);
    if clean.len() > 0 {
        base.push(clean)
    } else {
        base
    }
}

/// How many of the first `k` contents are questions.
pub open spec fn count_questions(cs: Seq<Seq<char>>, k: int) -> int
    decreases k,
{
    if k <= 0 {
        0
    } else {
        count_questions(cs, k - 1) + if is_question(to_lower(cs[k - 1])) {
            1int
        } else {
            0int
        }
    }
}

/// How many of the first `k` contents are command-like.
pub open spec fn count_commands(cs: Seq<Seq<char>>, k: int) -> int
    decreases k,
{
    if k <= 0 {
        0
    } else {
        count_commands(cs, k - 1) + if is_command_like(to_lower(cs[k - 1])) {
            1int
        } else {
            0int
        }
    }
}

/// How many of the first `k` contents show gratitude.
pub open spec fn count_gratitude(cs: Seq<Seq<char>>, k: int) -> int
    decreases k,
{
    if k <= 0 {
        0
    } else {
        count_gratitude(cs, k - 1) + if is_gratitude(to_lower(cs[k - 1])) {
            1int
        } else {
            0int
        }
    }
}

/// How many of the first `k` contents show frustration.
pub open spec fn count_frustration(cs: Seq<Seq<char>>, k: int) -> int
    decreases k,
{
    if k <= 0 {
        0
    } else {
        count_frustration(cs, k - 1) + if is_frustration(to_lower(cs[k - 1])) {
            1int
        } else {
            0int
        }
    }
}

/// How many of the first `k` contents run 120 characters or more.
pub open spec fn count_longs(cs: Seq<Seq<char>>, k: int) -> int
    decreases k,
{
    if k <= 0 {
        0
    } else {
        count_longs(cs, k - 1) + if cs[k - 1].len() >= 120 {
            1int
        } else {
            0int
        }
    }
}

/// The style the considered contents resolve to.
pub open spec fn spec_profile_style(cs: Seq<Seq<char>>) -> Seq<char> {
    spec_style(
        count_frustration(cs, cs.len() as int),
        count_questions(cs, cs.len() as int),
        count_commands(cs, cs.len() as int),
        count_longs(cs, cs.len() as int),
        count_gratitude(cs, cs.len() as int),
    )
}

/// Reads the user's communication style from the last six user turns plus
/// the current prompt: one point per questioning, command-like, grateful,
/// frustrated or long (120 characters or more) message, resolved to a
/// style by `spec_style` over the counts of `considered_contents`; the
/// first signal line reports three of the counts, a frustration and an
/// appreciation line follow when seen, and a shift line when the style
/// differs from the previous profile's.
pub fn analyze_communication_profile(
    prompt: &str,
    history: &Vec<ConversationTurn>,
    previous: Option<&CommunicationProfile>,
    now: &str,
) -> (r: CommunicationProfile)
    ensures
        r.updated_at@ == now@,
        r.signals@.len() >= 1,
        r.style@ == spec_profile_style(considered_contents(history@, prompt@)),
{
    let mut users: Vec<String> = Vec::new();
    let mut i: usize = 0;
    while i < history.len()
        invariant
            i <= history@.len(),
            users.deep_view() == user_contents_raw(history@, i as int),
        decreases history@.len() - i,
    {
        if str_eq(history[i].role.as_str(), "user") {
            users.push(history[i].content.clone());
            proof {
                assert(users.deep_view() =~~= user_contents_raw(history@, i + 1));
            }
        }
        i = i + 1;
    }
    let start: usize = if users.len() > 6 {
        users.len() - 6
    } else {
        0
    };
    let mut contents: Vec<String> = Vec::new();
    let mut j = start;
    while j < users.len()
        invariant
            start <= j <= users@.len(),
            users.deep_view().len() == users@.len(),
            users.deep_view() == user_contents_raw(history@, history@.len() as int),
            start == if users.deep_view().len() > 6 {
                users.deep_view().len() - 6
            } else {
                0int
            },
            contents.deep_view() == users.deep_view().subrange(start as int, j as int),
        decreases users@.len() - j,
    {
        let ghost old_dv = contents.deep_view();
        let ghost old_c = contents@;
        proof {
            assert(old_dv.len() == old_c.len());
            assert(forall|x: int| 0 <= x < old_c.len() ==> old_dv[x] == (#[trigger] old_c[x])@);
        }
        contents.push(users[j].clone());
        j = j + 1;
        proof {
            assert forall|x: int| 0 <= x < contents.deep_view().len() implies contents.deep_view()[
                x] == users.deep_view().subrange(start as int, j as int)[x] by {
                assert(contents.deep_view()[x] == contents@[x]@);
                assert(users.deep_view()[start + x] == users@[start + x]@);
                if x < old_c.len() {
                    assert(contents@[x] == old_c[x]);
                    assert(old_dv[x] == users.deep_view().subrange(start as int, j - 1)[x]);
                } else {
                    assert(contents@[x] == users@[j - 1]);
                }
            }
            assert(contents.deep_view() =~= users.deep_view().subrange(start as int, j as int));
        }
    }
    proof {
        assert(contents.deep_view() =~= last_n(
            user_contents_raw(history@, history@.len() as int),
            6,
        ));
    }
    let cleaned = sanitize_turn_content(prompt);
    if cleaned.as_str().unicode_len() > 0 {
        let ghost old_dv = contents.deep_view();
        contents.push(cleaned);
        proof {
            assert(contents.deep_view() =~~= considered_contents(history@, prompt@));
        }
    }
    proof {
        assert(contents.deep_view() =~~= considered_contents(history@, prompt@));
    }
    let ghost cs = considered_contents(history@, prompt@);
    let mut questions: u64 = 0;
    let mut commands: u64 = 0;
    let mut gratitude: u64 = 0;
    let mut frustration: u64 = 0;
    let mut longs: u64 = 0;
    let mut k: usize = 0;
    while k < contents.len()
        invariant
            k <= contents@.len(),
            contents.deep_view() == cs,
            contents.deep_view().len() == contents@.len(),
            questions == count_questions(cs, k as int),
            commands == count_commands(cs, k as int),
            gratitude == count_gratitude(cs, k as int),
            frustration == count_frustration(cs, k as int),
            longs == count_longs(cs, k as int),
            questions <= k && commands <= k && gratitude <= k && frustration <= k && longs <= k,
        decreases contents@.len() - k,
    {
        proof {
            assert(contents.deep_view()[k as int] == contents@[k as int]@);
        }
        let lower = lower_str(contents[k].as_str());
        if str_contains(lower.as_str(), "?") {
            questions = questions + 1;
        }
        if str_starts_with(lower.as_str(), "please ") || str_starts_with(lower.as_str(), "do ")
            || str_starts_with(lower.as_str(), "add ") || str_starts_with(lower.as_str(), "make ")
            || str_starts_with(lower.as_str(), "fix ") || str_starts_with(lower.as_str(), "give ")
            || str_starts_with(lower.as_str(), "build ") {
            commands = commands + 1;
        }
        if str_contains(lower.as_str(), "thanks") || str_contains(lower.as_str(), "thank you") {
            gratitude = gratitude + 1;
        }
        if str_contains(lower.as_str(), "not working") || str_contains(lower.as_str(), "still no")
            || str_contains(lower.as_str(), "broken") || str_contains(lower.as_str(), "wtf")
            || str_contains(lower.as_str(), "why isn't") {
            frustration = frustration + 1;
        }
        if contents[k].as_str().unicode_len() >= 120 {
            longs = longs + 1;
        }
        k = k + 1;
    }
    proof {
        assert(cs.len() == contents@.len());
    }
    let style: String = if frustration >= 1 {
        "frustrated".to_owned()
    } else if questions >= 3 {
        "curious".to_owned()
    } else if commands >= 2 {
        "direct".to_owned()
    } else if longs >= 2 {
        "reflective".to_owned()
    } else if gratitude >= 1 {
        "collaborative".to_owned()
    } else {
        "neutral".to_owned()
    };
    let mut signals: Vec<String> = Vec::new();
    let mut line = String::new();
    line.append("recent_questions=");
    let qd = crate::text::u64_to_string(questions);
    line.append(qd.as_str());
    line.append(", direct_requests=");
    let cd = crate::text::u64_to_string(commands);
    line.append(cd.as_str());
    line.append(", long_messages=");
    let ld = crate::text::u64_to_string(longs);
    line.append(ld.as_str());
    signals.push(line);
    if frustration >= 1 {
        signals.push("frustration detected in recent phrasing".to_owned());
    }
    if gratitude >= 1 {
        signals.push("appreciation language detected".to_owned());
    }
    match previous {
        Option::Some(prev) => {
            if !str_eq(prev.style.as_str(), style.as_str()) {
                let mut shift = String::new();
                shift.append("style shifted from ");
                shift.append(prev.style.as_str());
                shift.append(" to ");
                shift.append(style.as_str());
                signals.push(shift);
            }
        },
        Option::None => {},
    }
    let mut considered: Vec<ConversationTurn> = Vec::new();
    let mut m: usize = 0;
    while m < contents.len()
        invariant
            m <= contents@.len(),
        decreases contents@.len() - m,
    {
        considered.push(
            ConversationTurn {
                role: "user".to_owned(),
                content: contents[m].clone(),
                timestamp: now.to_owned(),
            },
        );
        m = m + 1;
    }
    let recent_topics = infer_recent_topics(&considered, 6);
    CommunicationProfile { style, signals, recent_topics, updated_at: now.to_owned() }
}

/// Renders the communication reflection: the style sentence, the recent
/// topics when any, and the first signal line.
pub fn render_communication_reflection(profile: &CommunicationProfile) -> (r: String)
    ensures
        r@.len() > 0,
{
    let mut s = String::new();
    s.append("You are communicating in a ");
    s.append(profile.style.as_str());
    s.append(" style right now.");
    if profile.recent_topics.len() > 0 {
        s.append(" Recent topics you focus on: ");
        let joined_topics = crate::text::join_with(&profile.recent_topics, ", ");
        s.append(joined_topics.as_str());
        s.append(".");
    }
    if profile.signals.len() > 0 {
        s.append(" Signal snapshot: ");
        s.append(profile.signals[0].as_str());
        s.append(".");
    }
    proof {
        reveal_strlit("You are communicating in a ");
    }
    s
}

/// The question topics mined from a history: walking the turns newest
/// first and considering at most `MAX_HISTORY_TURNS` of them, each user
/// turn that contains a question mark contributes its question topic,
/// when that topic is nonempty.
pub open spec fn mined_questions(turns: Seq<ConversationTurn>, i: int, considered: int) -> Seq<
    Seq<char>,
>
    decreases i,
{
    if i <= 0 || considered >= MAX_HISTORY_TURNS {
        Seq::empty()
    } else {
        let t = turns[i - 1];
        let rest = mined_questions(turns, i - 1, considered + 1);
        if t.role@ == "user"@ && has_sub(t.content@, "?"@) && spec_question_topic(t.content@).len()
            > 0 {
            seq![spec_question_topic(t.content@)] + rest
        } else {
            rest
        }
    }
}

/// Mines the question topics of a history, newest first, from at most the
/// last `MAX_HISTORY_TURNS` turns, per `mined_questions`.
pub fn mine_question_topics(turns: &Vec<ConversationTurn>) -> (r: Vec<String>)
    ensures
        r.deep_view() == mined_questions(turns@, turns@.len() as int, 0),
{
    let mut out: Vec<String> = Vec::new();
    let mut j: usize = turns.len();
    let mut considered: usize = 0;
    while j > 0 && considered < MAX_HISTORY_TURNS
        invariant
            j <= turns@.len(),
            considered <= MAX_HISTORY_TURNS,
            mined_questions(turns@, turns@.len() as int, 0) == out.deep_view() + mined_questions(
                turns@,
                j as int,
                considered as int,
            ),
        decreases j,
    {
        let t = &turns[j - 1];
        if str_eq(t.role.as_str(), "user") && str_contains(t.content.as_str(), "?") {
            let topic = extract_question_topic(t.content.as_str());
            if topic.as_str().unicode_len() > 0 {
                let ghost old_dv = out.deep_view();
                let ghost old_out = out@;
                proof {
                    assert(old_dv.len() == old_out.len());
                    assert(forall|x: int|
                        0 <= x < old_out.len() ==> old_dv[x] == (#[trigger] old_out[x])@);
                }
                out.push(topic);
                proof {
                    assert(out.deep_view() =~~= old_dv + seq![spec_question_topic(
                        turns@[j - 1].content@,
                    )]);
                    assert(out.deep_view() + mined_questions(turns@, j - 1, considered + 1)
                        =~~= old_dv + mined_questions(turns@, j as int, considered as int));
                }
            }
        }
        j = j - 1;
        considered = considered + 1;
    }
    proof {
        assert(mined_questions(turns@, j as int, considered as int) =~~= Seq::<Seq<char>>::empty());
        assert(out.deep_view() =~~= mined_questions(turns@, turns@.len() as int, 0));
    }
    out
}

/// How many of the first `k` entries of `cs` equal `t`.
pub open spec fn occurrences_in(cs: Seq<Seq<char>>, t: Seq<char>, k: int) -> int
    decreases k,
{
    if k <= 0 {
        0
    } else {
        occurrences_in(cs, t, k - 1) + if cs[k - 1] == t {
            1int
        } else {
            0int
        }
    }
}

/// An occurrence count is zero exactly when no position matches.
proof fn lemma_occurrences_zero(cs: Seq<Seq<char>>, t: Seq<char>, k: int)
    requires
        0 <= k,
    ensures
        0 <= occurrences_in(cs, t, k),
        (occurrences_in(cs, t, k) == 0) <==> (forall|m: int| 0 <= m < k ==> cs[m] != t),
    decreases k,
{
    if k > 0 {
        lemma_occurrences_zero(cs, t, k - 1);
    }
}

/// Occurrence counts never exceed the positions considered.
proof fn lemma_occurrences_bound(cs: Seq<Seq<char>>, t: Seq<char>, k: int)
    requires
        0 <= k,
    ensures
        occurrences_in(cs, t, k) <= k,
    decreases k,
{
    if k > 0 {
        lemma_occurrences_bound(cs, t, k - 1);
    }
}

/// What a pair search yields: a miss means no entry at or after `i`
/// carries the token's text; a hit is the least such position.
proof fn lemma_find_pair_props(pairs: Seq<(String, u64)>, tok: String, i: int)
    requires
        0 <= i,
    ensures
        find_pair(pairs, tok, i) == -1 || find_pair(pairs, tok, i) >= i,
        find_pair(pairs, tok, i) == -1 ==> (forall|j: int|
            i <= j < pairs.len() ==> (#[trigger] pairs[j]).0@ != tok@),
        find_pair(pairs, tok, i) >= 0 ==> i <= find_pair(pairs, tok, i) < pairs.len() && pairs[
            find_pair(pairs, tok, i)].0@ == tok@,
    decreases pairs.len() - i,
{
    if i < pairs.len() && pairs[i].0@ != tok@ {
        lemma_find_pair_props(pairs, tok, i + 1);
    }
}

/// The counted pairs of a token stream are sound and complete: their
/// texts are pairwise distinct, each is the text of a stream entry, every
/// stream entry's text is counted, each count is that text's number of
/// occurrences, and a nonempty stream yields at least one pair.
#[verifier::rlimit(80)]
proof fn lemma_topic_counts_props(stream: Seq<String>, k: int)
    requires
        0 <= k <= stream.len(),
        k <= u64::MAX,
    ensures
        ({
            let c = topic_counts(stream, k);
            let vs = crate::cycle::views_of(stream);
            &&& (forall|i: int, j: int| 0 <= i < j < c.len() ==> (#[trigger] c[i]).0@ != (
            #[trigger] c[j]).0@)
            &&& (forall|i: int|
                0 <= i < c.len() ==> exists|m: int| 0 <= m < k && (#[trigger] c[i]).0 == stream[m])
            &&& (forall|i: int|
                0 <= i < c.len() ==> (#[trigger] c[i]).1 as int == occurrences_in(
                    vs,
                    c[i].0@,
                    k,
                ))
            &&& (forall|m: int|
                0 <= m < k ==> exists|i: int|
                    0 <= i < c.len() && (#[trigger] stream[m])@ == c[i].0@)
            &&& c.len() <= k
            &&& (k > 0 ==> c.len() >= 1)
        }),
    decreases k,
{
    let c = topic_counts(stream, k);
    let vs = crate::cycle::views_of(stream);
    if k > 0 {
        lemma_topic_counts_props(stream, k - 1);
        let prev = topic_counts(stream, k - 1);
        let tok = stream[k - 1];
        let f = find_pair(prev, tok, 0);
        lemma_find_pair_props(prev, tok, 0);
        assert(vs[k - 1] == tok@);
        if f >= 0 {
            assert(c =~= prev.update(f, (prev[f].0, crate::state::sat64(prev[f].1 + 1) as u64)));
            assert(prev[f].1 as int == occurrences_in(vs, prev[f].0@, k - 1));
            lemma_occurrences_bound(vs, prev[f].0@, k - 1);
            assert(prev[f].1 < u64::MAX);
            assert forall|i: int| 0 <= i < c.len() implies (#[trigger] c[i]).1 as int
                == occurrences_in(vs, c[i].0@, k) by {
                if i == f {
                    assert(c[i].0@ == tok@);
                    assert(occurrences_in(vs, c[i].0@, k) == occurrences_in(vs, c[i].0@, k - 1)
                        + 1);
                } else {
                    assert(c[i] == prev[i]);
                    assert(c[i].0@ != prev[f].0@);
                    assert(c[i].0@ != tok@);
                    assert(occurrences_in(vs, c[i].0@, k) == occurrences_in(vs, c[i].0@, k - 1));
                }
            }
            assert forall|m: int| 0 <= m < k implies exists|i: int|
                0 <= i < c.len() && (#[trigger] stream[m])@ == c[i].0@ by {
                if m == k - 1 {
                    assert(stream[m]@ == c[f].0@);
                } else {
                    let i0 = choose|i0: int| 0 <= i0 < prev.len() && stream[m]@ == prev[i0].0@;
                    assert(c[i0].0@ == prev[i0].0@);
                    assert(stream[m]@ == c[i0].0@);
                }
            }
            assert forall|i: int| 0 <= i < c.len() implies exists|m: int|
                0 <= m < k && (#[trigger] c[i]).0 == stream[m] by {
                if i == f {
                    assert(c[i].0 == prev[f].0);
                    let m0 = choose|m0: int| 0 <= m0 < k - 1 && prev[f].0 == stream[m0];
                    assert(c[i].0 == stream[m0]);
                } else {
                    assert(c[i] == prev[i]);
                    let m0 = choose|m0: int| 0 <= m0 < k - 1 && prev[i].0 == stream[m0];
                    assert(c[i].0 == stream[m0]);
                }
            }
        } else {
            assert(c =~= prev.push((tok, 1u64)));
            assert(forall|j: int| 0 <= j < prev.len() ==> (#[trigger] prev[j]).0@ != tok@);
            lemma_occurrences_zero(vs, tok@, k - 1);
            assert(occurrences_in(vs, tok@, k - 1) == 0) by {
                if occurrences_in(vs, tok@, k - 1) != 0 {
                    let m = choose|m: int| 0 <= m < k - 1 && vs[m] == tok@;
                    assert(stream[m]@ == tok@);
                    let i0 = choose|i0: int| 0 <= i0 < prev.len() && stream[m]@ == prev[i0].0@;
                    assert(false);
                }
            }
            assert forall|i: int| 0 <= i < c.len() implies (#[trigger] c[i]).1 as int
                == occurrences_in(vs, c[i].0@, k) by {
                if i == c.len() - 1 {
                    assert(c[i] == (tok, 1u64));
                    assert(occurrences_in(vs, tok@, k) == 1);
                } else {
                    assert(c[i] == prev[i]);
                    assert(c[i].0@ != tok@);
                    assert(occurrences_in(vs, c[i].0@, k) == occurrences_in(vs, c[i].0@, k - 1));
                }
            }
            assert forall|m: int| 0 <= m < k implies exists|i: int|
                0 <= i < c.len() && (#[trigger] stream[m])@ == c[i].0@ by {
                if m == k - 1 {
                    assert(stream[m]@ == c[c.len() - 1].0@);
                } else {
                    let i0 = choose|i0: int| 0 <= i0 < prev.len() && stream[m]@ == prev[i0].0@;
                    assert(c[i0].0@ == prev[i0].0@);
                    assert(stream[m]@ == c[i0].0@);
                }
            }
            assert forall|i: int| 0 <= i < c.len() implies exists|m: int|
                0 <= m < k && (#[trigger] c[i]).0 == stream[m] by {
                if i == c.len() - 1 {
                    assert(c[i].0 == stream[k - 1]);
                } else {
                    assert(c[i] == prev[i]);
                    let m0 = choose|m0: int| 0 <= m0 < k - 1 && prev[i].0 == stream[m0];
                    assert(c[i].0 == stream[m0]);
                }
            }
            assert forall|i: int, j: int| 0 <= i < j < c.len() implies (#[trigger] c[i]).0@ != (
            #[trigger] c[j]).0@ by {
                if j == c.len() - 1 {
                    assert(c[i] == prev[i]);
                    assert(c[j].0@ == tok@);
                } else {
                    assert(c[i] == prev[i] && c[j] == prev[j]);
                }
            }
        }
    }
}

/// Ranked order between two topics of a mined pool: strictly more
/// occurrences first, ties broken by ascending text.
pub open spec fn topics_ranked(mined: Seq<Seq<char>>, a: Seq<char>, b: Seq<char>) -> bool {
    let ca = occurrences_in(mined, a, mined.len() as int);
    let cb = occurrences_in(mined, b, mined.len() as int);
    ca > cb || (ca == cb && crate::rank::lex_le(a, b))
}

/// The topics studied when no question history yields any.
pub fn fallback_training_topics() -> (r: Vec<String>)
    ensures
        r.deep_view() == seq![
            "artificial intelligence"@,
            "software engineering best practices"@,
            "rust programming"@,
            "internet security basics"@,
        ],
{
    let mut v: Vec<String> = Vec::new();
    v.push("artificial intelligence".to_owned());
    v.push("software engineering best practices".to_owned());
    v.push("rust programming".to_owned());
    v.push("internet security basics".to_owned());
    proof {
        assert(v.deep_view() =~~= seq![
            "artificial intelligence"@,
            "software engineering best practices"@,
            "rust programming"@,
            "internet security basics"@,
        ]);
    }
    v
}

/// The mined topics of a history, ranked by how often each was asked,
/// ties by ascending topic text, first `limit` kept; the fixed fallback
/// topics when nothing was mined. When topics were mined the result is
/// non-empty (given a positive limit), holds pairwise-distinct mined
/// topics, and runs in ranked order.
#[verifier::rlimit(60)]
pub fn ranked_question_topics(turns: &Vec<ConversationTurn>, limit: usize) -> (r: Vec<String>)
    ensures
        ({
            let mined = mined_questions(turns@, turns@.len() as int, 0);
            &&& (mined.len() == 0 ==> r.deep_view() == seq![
                "artificial intelligence"@,
                "software engineering best practices"@,
                "rust programming"@,
                "internet security basics"@,
            ])
            &&& (mined.len() > 0 ==> {
                &&& r@.len() <= limit
                &&& (limit >= 1 ==> r@.len() >= 1)
                &&& (forall|i: int| 0 <= i < r@.len() ==> mined.contains((#[trigger] r@[i])@))
                &&& (forall|i: int, j: int|
                    0 <= i < j < r@.len() ==> (#[trigger] r@[i])@ != (#[trigger] r@[j])@)
                &&& (forall|i: int|
                    0 <= i < r@.len() - 1 ==> topics_ranked(
                        mined,
                        (#[trigger] r@[i])@,
                        r@[i + 1]@,
                    ))
            })
        }),
{
    let ghost mined_spec = mined_questions(turns@, turns@.len() as int, 0);
    let mined = mine_question_topics(turns);
    proof {
        assert(mined.deep_view().len() == mined@.len());
    }
    if mined.len() == 0 {
        return fallback_training_topics();
    }
    let counts = count_topic_pairs(&mined);
    let ranked = crate::rank::sort_count_pairs(counts);
    proof {
        assert(forall|m: int|
            0 <= m < mined@.len() ==> crate::cycle::views_of(mined@)[m] == (#[trigger] mined@[m])@);
        assert(crate::cycle::views_of(mined@) =~~= mined_spec);
        lemma_topic_counts_props(mined@, mined@.len() as int);
        let cs = counts@;
        assert(cs == topic_counts(mined@, mined@.len() as int));
        // distinct texts make the counted pairs pairwise-distinct values
        assert forall|i: int, j: int|
            0 <= i < j < cs.len() implies #[trigger] cs[i] != #[trigger] cs[j] by {
            assert(cs[i].0@ != cs[j].0@);
        }
        assert(cs.no_duplicates());
        cs.lemma_multiset_has_no_duplicates();
        ranked@.lemma_multiset_has_no_duplicates_conv();
        assert(ranked@.no_duplicates());
        cs.to_multiset_ensures();
        ranked@.to_multiset_ensures();
        // every ranked pair is one of the counted pairs
        assert forall|i: int| 0 <= i < ranked@.len() implies cs.contains(#[trigger] ranked@[i]) by {
            assert(ranked@.contains(ranked@[i]));
            assert(ranked@.to_multiset().count(ranked@[i]) > 0);
        }
        // so ranked texts are pairwise distinct, mined, and carry their
        // occurrence counts
        assert forall|i: int, j: int| 0 <= i < j < ranked@.len() implies (#[trigger] ranked@[
        i]).0@ != (#[trigger] ranked@[j]).0@ by {
            let ki = choose|ki: int| 0 <= ki < cs.len() && cs[ki] == ranked@[i];
            let kj = choose|kj: int| 0 <= kj < cs.len() && cs[kj] == ranked@[j];
            if cs[ki].0@ == cs[kj].0@ {
                assert(ki == kj);
                assert(ranked@[i] == ranked@[j]);
            }
        }
        assert forall|i: int| 0 <= i < ranked@.len() implies mined_spec.contains(
            (#[trigger] ranked@[i]).0@,
        ) by {
            let ki = choose|ki: int| 0 <= ki < cs.len() && cs[ki] == ranked@[i];
            let m = choose|m: int| 0 <= m < mined@.len() && cs[ki].0 == mined@[m];
            assert(mined_spec[m] == mined@[m]@);
        }
        assert forall|i: int| 0 <= i < ranked@.len() implies (#[trigger] ranked@[i]).1 as int
            == occurrences_in(mined_spec, ranked@[i].0@, mined_spec.len() as int) by {
            let ki = choose|ki: int| 0 <= ki < cs.len() && cs[ki] == ranked@[i];
        }
    }
    let mut out: Vec<String> = Vec::new();
    let mut i: usize = 0;
    while i < ranked.len() && out.len() < limit
        invariant
            i <= ranked@.len(),
            out@.len() <= limit,
            out@.len() == if i <= limit {
                i as int
            } else {
                limit as int
            },
            out@.len() == i,
            i <= limit,
            forall|j: int| 0 <= j < out@.len() ==> #[trigger] out@[j] == ranked@[j].0,
        decreases ranked@.len() - i,
    {
        out.push(ranked[i].0.clone());
        i = i + 1;
    }
    proof {
        assert forall|i2: int| 0 <= i2 < out@.len() implies mined_spec.contains(
            (#[trigger] out@[i2])@,
        ) by {
            assert(out@[i2] == ranked@[i2].0);
        }
        assert forall|i2: int, j2: int| 0 <= i2 < j2 < out@.len() implies (#[trigger] out@[i2])@
            != (#[trigger] out@[j2])@ by {
            assert(out@[i2] == ranked@[i2].0 && out@[j2] == ranked@[j2].0);
        }
        assert forall|i2: int| 0 <= i2 < out@.len() - 1 implies topics_ranked(
            mined_spec,
            (#[trigger] out@[i2])@,
            out@[i2 + 1]@,
        ) by {
            assert(crate::rank::pair_cb(ranked@[i2], ranked@[i2 + 1]));
            assert(ranked@[i2].1 as int == occurrences_in(
                mined_spec,
                ranked@[i2].0@,
                mined_spec.len() as int,
            ));
            assert(ranked@[i2 + 1].1 as int == occurrences_in(
                mined_spec,
                ranked@[i2 + 1].0@,
                mined_spec.len() as int,
            ));
        }
    }
    out
}

} // verus!
