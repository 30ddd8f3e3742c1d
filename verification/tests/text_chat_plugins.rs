//! Text utilities, chat rules, research parsing and plugin behavior.

use jeebs_core::chat::{
    analyze_communication_profile, mine_question_topics, ranked_question_topics, canonical_prompt_key, clean_history, clean_learned_fact,
    comprehension_key, extract_learnable_fact, extract_math_expression, extract_name_from_intro,
    extract_question_topic, fact_owner_key, fact_prefix, fact_storage_key, help_text,
    history_key, infer_recent_topics, is_follow_up_prompt, is_goodbye, is_greeting,
    jeebs_dislikes, jeebs_likes, jeebs_wants, last_turn_by_role, looks_like_math_expression,
    most_recent_facts, normalize_fact_text, parse_forget_command, parse_learning_command,
    rank_relevant_facts, recent_conversation_summary, render_communication_reflection,
    sanitize_key_segment, sanitize_turn_content, wants_communication_reflection,
    wants_dislikes_prompt, wants_goal_prompt, wants_likes_prompt, wants_personal_memory_lookup,
    wants_personal_memory_overview, ConversationTurn,
};
use jeebs_core::plugins::{
    pig_latin_word, Base64Plugin, CalcPlugin, ContactPlugin, ErrorPlugin, HashPlugin, LogicPlugin,
    MemoryCommand, MemoryPlugin, NewsPlugin, PasswordPlugin, SummaryPlugin, SystemPlugin,
    TimePlugin, TodoPlugin, TranslateCommand, TranslatePlugin, WeatherPlugin, WebsiteStatusPlugin,
};
use jeebs_core::rank::{sort_count_pairs, str_le, LearnedFact};
use jeebs_core::research::{build_research_doc, candidate_doc, research_node_id, search_titles};
use jeebs_core::status::format_uptime;
use jeebs_core::text::{
    is_token_stopword, join_with, lower_str, normalize_whitespace, split_whitespace, str_contains,
    tokenize_for_matching, trim_ws_str, truncate_chars, u64_to_string, upper_str,
};
use jeebs_core::brain::brain_node_key;
use jeebs_core::api::{SearchRequest, UserChatRequest};
use jeebs_core::state::{default_active_phase, normalize_training_topic_input};

fn turn(role: &str, content: &str) -> ConversationTurn {
    ConversationTurn {
        role: String::from(role),
        content: String::from(content),
        timestamp: String::from("t"),
    }
}

fn fact(text: &str, canonical: &str, updated: &str) -> LearnedFact {
    LearnedFact {
        fact: String::from(text),
        canonical: String::from(canonical),
        created_at: String::from("t0"),
        updated_at: String::from(updated),
    }
}

#[test]
fn text_basics() {
    assert_eq!(normalize_whitespace("  a\t b\n\nc "), "a b c");
    assert_eq!(truncate_chars("hello", 3), "hel");
    assert_eq!(truncate_chars("hi", 8), "hi");
    assert_eq!(lower_str("AbC!"), "abc!");
    assert_eq!(upper_str("abc"), "ABC");
    assert_eq!(trim_ws_str("  x  "), "x");
    assert!(str_contains("haystack", "stack"));
    assert!(!str_contains("haystack", "needle"));
    assert_eq!(u64_to_string(120), "120");
    assert_eq!(u64_to_string(0), "0");
    let parts = split_whitespace(" a  bb  c ");
    assert_eq!(parts, vec!["a", "bb", "c"]);
    assert_eq!(join_with(&parts, "-"), "a-bb-c");
}

#[test]
fn tokenizer_drops_stop_words_and_short_tokens() {
    let toks = tokenize_for_matching("What about the Rust Programming of AI?");
    assert_eq!(toks, vec!["rust", "programming"]);
    assert!(is_token_stopword("the"));
    assert!(is_token_stopword("remember"));
    assert!(!is_token_stopword("rust"));
}

#[test]
fn canonical_prompt_is_lowercased_and_collapsed() {
    assert_eq!(canonical_prompt_key("  Hello   World  "), "hello world");
    assert_eq!(history_key("u1"), "chat:history:u1");
    assert_eq!(sanitize_turn_content("  a   b  "), "a b");
}

#[test]
fn key_segments_and_fact_keys() {
    assert_eq!(sanitize_key_segment("User Name!"), "username");
    assert_eq!(sanitize_key_segment("@@@"), "anonymous");
    assert_eq!(fact_owner_key("sess1", Some("Bob")), "user:bob");
    assert_eq!(fact_owner_key("Sess 1", None), "session:sess1");
    assert_eq!(fact_prefix("user:bob"), "chat:fact:user:bob:");
    let k1 = fact_storage_key("user:bob", "my dog is rex");
    let k2 = fact_storage_key("user:bob", "my cat is tom");
    assert!(k1.starts_with("chat:fact:user:bob:"));
    assert_ne!(k1, k2);
    assert_eq!(k1, fact_storage_key("user:bob", "my dog is rex"));
}

#[test]
fn learnable_fact_extraction() {
    assert_eq!(
        extract_learnable_fact("remember that my dog is Rex").as_deref(),
        Some("my dog is Rex")
    );
    assert_eq!(
        extract_learnable_fact("My favorite color is green!").as_deref(),
        Some("My favorite color is green")
    );
    assert_eq!(
        extract_learnable_fact("i live in Berlin").as_deref(),
        Some("i live in Berlin")
    );
    assert!(extract_learnable_fact("what is my name?").is_none());
    assert!(extract_learnable_fact("remember: a => b").is_none());
    assert!(extract_learnable_fact("").is_none());
    assert_eq!(normalize_fact_text("  my dog  is Rex.  "), "my dog is Rex");
}

#[test]
fn learning_and_forget_commands() {
    assert_eq!(
        parse_learning_command("remember: What is Rust => a language"),
        Some((String::from("what is rust"), String::from("a language")))
    );
    assert_eq!(
        parse_learning_command("learn: q -> a"),
        Some((String::from("q"), String::from("a")))
    );
    assert_eq!(
        parse_learning_command("learn: q = a"),
        Some((String::from("q"), String::from("a")))
    );
    assert!(parse_learning_command("remember: nothing here").is_none());
    assert!(parse_learning_command("hello").is_none());
    assert_eq!(
        parse_forget_command("forget:  What is RUST  ").as_deref(),
        Some("what is rust")
    );
    assert!(parse_forget_command("drop: x").is_none());
}

#[test]
fn name_extraction_capitalizes() {
    assert_eq!(extract_name_from_intro("my name is bob.").as_deref(), Some("Bob"));
    assert_eq!(extract_name_from_intro("i'm ada").as_deref(), Some("Ada"));
    assert!(extract_name_from_intro("my name is ...").is_none());
    assert!(extract_name_from_intro("hello there").is_none());
}

#[test]
fn prompt_classifiers() {
    assert!(is_greeting("hello"));
    assert!(is_greeting("hey there"));
    assert!(!is_greeting("say hello"));
    assert!(is_goodbye("bye"));
    assert!(is_follow_up_prompt("tell me more"));
    assert!(is_follow_up_prompt("why is that"));
    assert!(!is_follow_up_prompt("crawl something"));
}

#[test]
fn math_detection() {
    assert!(looks_like_math_expression(" 12 * (3 + 4) "));
    assert!(!looks_like_math_expression("twelve"));
    assert!(!looks_like_math_expression("++--"));
    assert_eq!(
        extract_math_expression("calculate 1,200 * 7", "calculate 1,200 * 7").as_deref(),
        Some("1200 * 7")
    );
    assert_eq!(
        extract_math_expression("What is 2+2?", "what is 2+2?").as_deref(),
        Some("2+2")
    );
    assert_eq!(
        extract_math_expression("3 * 3", "3 * 3").as_deref(),
        Some("3 * 3")
    );
    assert!(extract_math_expression("what time is it", "what time is it").is_none());
}

#[test]
fn question_topic_takes_five_tokens() {
    assert_eq!(
        extract_question_topic("How does Rust handle memory safety checks today?"),
        "does rust handle memory safety"
    );
    assert_eq!(extract_question_topic("is it"), "is it");
}

#[test]
fn conversation_summary_takes_last_three_user_turns() {
    let hist = vec![
        turn("user", "first"),
        turn("assistant", "ignored"),
        turn("user", "second"),
        turn("user", "third"),
        turn("user", "fourth"),
    ];
    assert_eq!(
        recent_conversation_summary(&hist).as_deref(),
        Some("second | third | fourth")
    );
    let none: Vec<ConversationTurn> = vec![turn("assistant", "only me")];
    assert!(recent_conversation_summary(&none).is_none());
}

#[test]
fn fact_ranking_prefers_matches_and_recency() {
    let facts = vec![
        fact("my dog is rex", "my dog is rex", "2024-01-01"),
        fact("my cat is tom", "my cat is tom", "2024-02-01"),
        fact("i live in berlin", "i live in berlin", "2024-03-01"),
    ];
    let ranked = rank_relevant_facts(&facts, "what is my dog called", 5);
    assert!(!ranked.is_empty());
    assert_eq!(ranked[0].fact, "my dog is rex");

    let recent = most_recent_facts(&facts, 2);
    assert_eq!(recent.len(), 2);
    assert_eq!(recent[0].updated_at, "2024-03-01");
    assert_eq!(recent[1].updated_at, "2024-02-01");

    assert!(rank_relevant_facts(&facts, "???", 5).is_empty());
}

#[test]
fn cleaning_learned_facts() {
    let lf = clean_learned_fact("  my dog  is rex ", "  My Dog is REX ", "t0", "t1").unwrap();
    assert_eq!(lf.fact, "my dog is rex");
    assert_eq!(lf.canonical, "my dog is rex");
    assert!(clean_learned_fact("   ", "x", "t0", "t1").is_none());
}

#[test]
fn topic_inference_ranks_by_count() {
    let hist = vec![
        turn("user", "rust memory safety borrow"),
        turn("user", "rust lifetimes compile"),
        turn("user", "gardening tips"),
    ];
    let topics = infer_recent_topics(&hist, 3);
    assert!(topics.len() <= 3);
    assert_eq!(topics[0], "rust");

    let pairs = vec![
        (String::from("beta"), 1u64),
        (String::from("alpha"), 1u64),
        (String::from("gamma"), 3u64),
    ];
    let sorted = sort_count_pairs(pairs);
    assert_eq!(sorted[0].0, "gamma");
    assert_eq!(sorted[1].0, "alpha");
    assert_eq!(sorted[2].0, "beta");
    assert!(str_le("alpha", "beta"));
    assert!(!str_le("beta", "alpha"));
}

#[test]
fn communication_profile_reads_style() {
    let hist = vec![
        turn("user", "why is this broken and not working at all"),
        turn("user", "fix it"),
    ];
    let p = analyze_communication_profile("still no luck, wtf", &hist, None, "t9");
    assert_eq!(p.style, "frustrated");
    assert_eq!(p.updated_at, "t9");
    assert!(p.signals[0].starts_with("recent_questions="));
    let text = render_communication_reflection(&p);
    assert!(text.contains("frustrated"));

    let calm = analyze_communication_profile("thanks a lot", &Vec::new(), None, "t9");
    assert_eq!(calm.style, "collaborative");
}

#[test]
fn digests_match_known_vectors() {
    assert_eq!(
        HashPlugin::handle("hash sha256 abc").as_deref(),
        Some("ba7816bf8f01cfea414140de5dae2223b00361a396177a9cb410ff61f20015ad")
    );
    assert_eq!(
        HashPlugin::handle("hash md5 abc").as_deref(),
        Some("900150983cd24fb0d6963f7d28e17f72")
    );
    let b = HashPlugin::handle("hash abc").unwrap();
    assert_eq!(b.len(), 64);
    assert_ne!(Some(b.clone()), HashPlugin::handle("hash abd"));
    assert_eq!(Some(b.clone()), HashPlugin::handle("hash abc"));
    assert!(b.chars().all(|c| c.is_ascii_hexdigit()));
}

#[test]
fn research_doc_rules() {
    // no title field in the response: the candidate's own title is used
    let d = build_research_doc("rust", "Rust lang", None, "  a  summary  ", None).unwrap();
    assert_eq!(d.title, "Rust lang");
    assert_eq!(d.url, "https://en.wikipedia.org/wiki/Rust_lang");
    assert_eq!(d.summary, "a summary");
    assert_eq!(d.topic, "rust");

    let d2 = build_research_doc(
        "rust",
        "ignored",
        Some(String::from("Rust (language)")),
        "text",
        Some(String::from("https://en.wikipedia.org/wiki/Rust")),
    )
    .unwrap();
    assert_eq!(d2.title, "Rust (language)");
    assert_eq!(d2.url, "https://en.wikipedia.org/wiki/Rust");

    // a present-but-blank response title skips the candidate outright
    assert!(build_research_doc("t", "Candidate", Some(String::from("   ")), "text", None).is_none());
    assert!(build_research_doc("t", "", None, "text", None).is_none());
    assert!(build_research_doc("t", "Title", None, "   ", None).is_none());

    let long = "x".repeat(2000);
    let d3 = build_research_doc("t", "Title", None, &long, None).unwrap();
    assert_eq!(d3.summary.chars().count(), 900);

    let id = research_node_id(" https://en.wikipedia.org/wiki/Rust ");
    assert!(id.starts_with("train:"));
    assert_eq!(id, research_node_id("https://en.wikipedia.org/wiki/Rust"));
}

#[test]
fn research_response_parsing() {
    let titles = search_titles("[\"q\",[\"Alpha\",\"Beta\"],[],[]]").unwrap();
    assert_eq!(titles, vec!["Alpha", "Beta"]);
    assert_eq!(
        search_titles("not json").err().as_deref(),
        Some("wikipedia search parse failed")
    );
    assert_eq!(search_titles("{}").unwrap().len(), 0);

    let d = candidate_doc(
        "rust",
        "candidate",
        "{\"title\":\"Rust\",\"extract\":\"A language.\",\"content_urls\":{\"desktop\":{\"page\":\"https://en.wikipedia.org/wiki/Rust\"}}}",
    )
    .unwrap();
    assert_eq!(d.title, "Rust");
    assert_eq!(d.summary, "A language.");
    assert_eq!(d.url, "https://en.wikipedia.org/wiki/Rust");
    assert!(candidate_doc("rust", "candidate", "oops").is_none());
    // an empty extract skips the candidate
    assert!(candidate_doc("rust", "candidate", "{\"title\":\"Rust\"}").is_none());
}

#[test]
fn plugin_detection_and_computation() {
    assert!(TimePlugin::wants("what time is it"));
    assert!(!TimePlugin::wants("hello"));

    assert_eq!(CalcPlugin::extract("calc 2+2").as_deref(), Some("2+2"));
    assert_eq!(CalcPlugin::extract("calculate 3 * 3").as_deref(), Some("3 * 3"));
    assert_eq!(CalcPlugin::extract("12 / 4").as_deref(), Some("12 / 4"));
    assert!(CalcPlugin::extract("what is love").is_none());

    assert_eq!(WeatherPlugin::location("weather Paris").as_deref(), Some("Paris"));
    assert_eq!(WeatherPlugin::location("weather").as_deref(), Some("_"));
    assert!(WeatherPlugin::location("sunny day").is_none());

    let _n = NewsPlugin::new();
    assert!(NewsPlugin::wants("any news today"));

    match MemoryPlugin::parse("remember color=green").unwrap() {
        MemoryCommand::Store { key, value } => {
            assert_eq!(key, "color");
            assert_eq!(value, "green");
        }
        _ => panic!("expected a store command"),
    }
    match MemoryPlugin::parse("recall color").unwrap() {
        MemoryCommand::Recall { key } => assert_eq!(key, "color"),
        _ => panic!("expected a recall command"),
    }
    assert!(matches!(
        MemoryPlugin::parse("memories").unwrap(),
        MemoryCommand::List
    ));
    assert!(MemoryPlugin::parse("hello").is_none());

    assert!(SystemPlugin::wants("how much memory"));
    assert_eq!(
        SystemPlugin::render(8, 1024, 2048),
        "CPU cores: 8 | Memory used: 1024 / 2048 KB"
    );

    assert_eq!(
        SummaryPlugin::summarize("One sentence. Two sentence. Three.").as_deref(),
        Some("One sentence. Two sentence")
    );
    assert_eq!(
        SummaryPlugin::extract("summarize some long text").as_deref(),
        Some("some long text")
    );

    match TranslatePlugin::parse("translate to uppercase: hi there").unwrap() {
        TranslateCommand::Uppercase { text } => assert_eq!(text, "hi there"),
        _ => panic!("expected uppercase"),
    }
    assert_eq!(TranslatePlugin::pig_latin_text("hello apple"), "ello-hay apple-ay");
    assert_eq!(pig_latin_word("hello"), "ello-hay");
    assert_eq!(pig_latin_word("apple"), "apple-ay");
    assert_eq!(pig_latin_word(""), "");

    assert_eq!(PasswordPlugin::requested_length("password 24"), Some(24));
    assert_eq!(PasswordPlugin::requested_length("password"), Some(16));
    // a token beyond six digits is no length request
    assert_eq!(PasswordPlugin::requested_length("password 1234567"), Some(16));
    assert!(PasswordPlugin::requested_length("open sesame").is_none());

    assert_eq!(
        HashPlugin::handle("hash sha256 abc").as_deref(),
        Some("ba7816bf8f01cfea414140de5dae2223b00361a396177a9cb410ff61f20015ad")
    );
    assert_eq!(
        HashPlugin::handle("hash md5 abc").as_deref(),
        Some("900150983cd24fb0d6963f7d28e17f72")
    );
    assert_eq!(HashPlugin::handle("hash abc").unwrap().len(), 64);
    assert!(HashPlugin::handle("checksum abc").is_none());

    assert_eq!(Base64Plugin::handle("b64 encode hello").as_deref(), Some("aGVsbG8="));
    assert_eq!(Base64Plugin::handle("b64 decode aGVsbG8=").as_deref(), Some("hello"));
    assert_eq!(
        Base64Plugin::handle("b64 decode !!!").as_deref(),
        Some("Invalid base64 input")
    );
    assert!(Base64Plugin::handle("encode me").is_none());

    assert_eq!(LogicPlugin::handle("true and false"), Some(false));
    assert_eq!(LogicPlugin::handle("false or true"), Some(true));
    assert_eq!(LogicPlugin::handle("is it true and true"), Some(true));
    assert!(LogicPlugin::handle("plain words").is_none());

    assert_eq!(
        WebsiteStatusPlugin::target("status http://example.com").as_deref(),
        Some("http://example.com")
    );
    assert!(WebsiteStatusPlugin::target("ping").is_none());

    let mut todos: Vec<String> = Vec::new();
    TodoPlugin::add(&mut todos, "write tests");
    TodoPlugin::add(&mut todos, "ship");
    assert_eq!(TodoPlugin::render(&todos), "1: write tests\n2: ship");
    assert!(TodoPlugin::remove(&mut todos, 1));
    assert!(!TodoPlugin::remove(&mut todos, 9));
    assert_eq!(TodoPlugin::render(&todos), "1: ship");
    let empty: Vec<String> = Vec::new();
    assert_eq!(TodoPlugin::render(&empty), "No todos.");

    assert_eq!(
        ErrorPlugin::handle("please trigger error now").as_deref(),
        Some("Error: simulated failure")
    );
    assert!(ErrorPlugin::handle("all fine").is_none());
}

#[test]
fn uptime_formatting() {
    assert_eq!(format_uptime(0), "0d 0h 0m");
    assert_eq!(format_uptime(90061), "1d 1h 1m");
    assert_eq!(format_uptime(86400 * 2 + 3600 * 3 + 60 * 4 + 59), "2d 3h 4m");
}

#[test]
fn brain_keys_and_records() {
    assert_eq!(brain_node_key("abc"), "brain:node:abc");
    let mut node = jeebs_core::brain::BrainNode {
        id: String::from("a"),
        label: String::from("A"),
        summary: String::from("s"),
        sources: Vec::new(),
        edges: Vec::new(),
        last_trained: String::from("t"),
    };
    node.add_edge("b");
    node.add_edge("b");
    node.add_edge("c");
    assert_eq!(node.edges, vec![String::from("b"), String::from("c")]);
}

#[test]
fn api_records_hold_their_fields() {
    let req = SearchRequest { query: String::from("rust") };
    assert_eq!(req.query, "rust");
    let chat = UserChatRequest { message: String::from("hi") };
    assert_eq!(chat.message, "hi");
    assert_eq!(default_active_phase(), "idle");
}

#[test]
fn email_extraction_finds_the_first_address() {
    assert_eq!(
        ContactPlugin::first_email("write to a.user@example.com or b@example.org").as_deref(),
        Some("a.user@example.com")
    );
    assert!(ContactPlugin::first_email("no address here").is_none());
}

#[test]
fn focus_topic_input_is_cleaned() {
    assert_eq!(
        normalize_training_topic_input("  rust   memory  ").as_deref(),
        Some("rust memory")
    );
    assert!(normalize_training_topic_input("   ").is_none());
    let long = "a ".repeat(200);
    let cleaned = normalize_training_topic_input(&long).unwrap();
    assert_eq!(cleaned.chars().count(), 160);
}

#[test]
fn assistant_preference_prompts() {
    assert!(wants_likes_prompt("so what do you like most"));
    assert!(!wants_likes_prompt("what do you dislike"));
    assert!(wants_dislikes_prompt("what do you dislike"));
    assert!(wants_goal_prompt("what do you want to learn"));
    assert!(wants_personal_memory_overview("tell me about me"));
    assert!(wants_personal_memory_lookup("what is my name"));
    assert!(wants_communication_reflection("how am i communicating"));
    assert_eq!(jeebs_likes().len(), 5);
    assert_eq!(jeebs_dislikes().len(), 5);
    assert_eq!(jeebs_wants().len(), 3);
    assert!(!help_text().is_empty());
    assert_eq!(comprehension_key("user:bob"), "chat:comprehension:user:bob");

    let hist = vec![
        turn("user", "one"),
        turn("assistant", "two"),
        turn("user", "three"),
    ];
    assert_eq!(last_turn_by_role(&hist, "assistant").unwrap().content, "two");
    assert_eq!(last_turn_by_role(&hist, "user").unwrap().content, "three");
    assert!(last_turn_by_role(&hist, "system").is_none());
}

#[test]
fn history_cleaning_keeps_real_turns() {
    let mut turns = vec![
        turn("USER", "  keep   me  "),
        turn("system", "drop me"),
        turn("assistant", "   "),
        turn("Assistant", "also kept"),
    ];
    for i in 0..30 {
        turns.push(turn("user", &format!("filler {}", i)));
    }
    let cleaned = clean_history(turns);
    assert_eq!(cleaned.len(), 24);
    assert!(cleaned.iter().all(|t| t.role == "user" || t.role == "assistant"));
    assert_eq!(cleaned.last().unwrap().content, "filler 29");
}

#[test]
fn question_mining_and_fallback() {
    let hist = vec![
        turn("user", "how does rust handle memory?"),
        turn("assistant", "a reply with a ? mark"),
        turn("user", "no question here"),
        turn("user", "how does rust handle memory?"),
        turn("user", "what about gardening tools?"),
    ];
    let mined = mine_question_topics(&hist);
    // newest first, assistant and question-free turns skipped
    assert_eq!(
        mined,
        vec![
            String::from("gardening tools"),
            String::from("does rust handle memory"),
            String::from("does rust handle memory"),
        ]
    );
    let ranked = ranked_question_topics(&hist, 4);
    assert_eq!(ranked[0], "does rust handle memory");
    assert_eq!(ranked.len(), 2);

    let quiet = vec![turn("user", "nothing to ask")];
    assert_eq!(
        ranked_question_topics(&quiet, 4),
        vec![
            String::from("artificial intelligence"),
            String::from("software engineering best practices"),
            String::from("rust programming"),
            String::from("internet security basics"),
        ]
    );
}
