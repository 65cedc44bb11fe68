use monitor_core::ai::{Brain, Exchange};
use monitor_core::handlers::{
    assemble_context, chat_handler, seed_knowledge, Chat, ChatAction, CONTEXT_DELIMITER, NEIGHBOURS,
    RETRIEVAL_ERROR, SEEDED,
};
use monitor_core::seeder::{auto_seed, is_white_space, knowledge_facts, SeedAction, Seeding};
use monitor_core::shared::{ChatRequest, SeedRequest};
use monitor_core::state::AppState;
use monitor_core::store::{distance, Document, StoreError, VectorStore};

fn document(content: &str, embedding: &[i32]) -> Document {
    Document { content: content.to_string(), embedding: embedding.to_vec() }
}

fn state(dimension: usize) -> AppState {
    AppState::new(8, dimension, Brain::new("k".to_string()))
}

fn contents(found: &[&Document]) -> Vec<String> {
    found.iter().map(|d| d.content.clone()).collect()
}

#[test]
fn a_question_retrieves_the_seeded_facts_before_generation() {
    let mut state = state(2);
    let request = SeedRequest {
        facts: vec!["Nick knows Rust".to_string(), "Nick is a Sim Engineer".to_string()],
    };
    let documents: Vec<Document> = request
        .facts
        .iter()
        .zip([[10, 0], [0, 10]])
        .map(|(fact, vector)| document(fact, &vector))
        .collect();
    assert_eq!(seed_knowledge(&mut state, documents), Ok("Knowledge Base Updated"));
    let asked = Chat::Asked(ChatRequest { question: "What does Nick know?".to_string() });
    assert_eq!(
        chat_handler(&state, asked),
        ChatAction::Embed("What does Nick know?".to_string())
    );
    let embedded =
        Chat::Embedded { question: "What does Nick know?".to_string(), vector: vec![9, 1] };
    match chat_handler(&state, embedded) {
        ChatAction::Generate { url, prompt, body } => {
            assert!(prompt.contains("Nick knows Rust") || prompt.contains("Nick is a Sim Engineer"));
            assert!(body.contains("Nick knows Rust") || body.contains("Nick is a Sim Engineer"));
            assert_eq!(body, Brain::request_body(&prompt));
            assert_eq!(
                prompt,
                Brain::prompt(
                    "Nick knows Rust\n---\nNick is a Sim Engineer",
                    "What does Nick know?"
                )
            );
            assert_eq!(url, state.brain.endpoint());
        }
        other => panic!("no generation call: {:?}", other),
    }
}

#[test]
fn the_last_stage_of_a_chat_answers_the_client() {
    let state = state(2);
    let body = "{\"candidates\":[{\"content\":{\"parts\":[{\"text\":\"Rust.\"}]}}]}";
    assert_eq!(
        chat_handler(&state, Chat::Exchanged(Exchange::Replied(body.as_bytes().to_vec()))),
        ChatAction::Respond { text: "Rust.".to_string(), diagnostic: false }
    );
    assert_eq!(
        chat_handler(&state, Chat::Exchanged(Exchange::Failed("timeout".to_string()))),
        ChatAction::Respond { text: "Error calling Gemini: timeout".to_string(), diagnostic: true }
    );
    let quota = "{\"error\":{\"message\":\"quota exceeded\"}}";
    assert_eq!(
        chat_handler(&state, Chat::Exchanged(Exchange::Replied(quota.as_bytes().to_vec()))),
        ChatAction::Respond {
            text: "Gemini API Error: \"quota exceeded\"".to_string(),
            diagnostic: true
        }
    );
}

#[test]
fn a_reply_without_a_text_ends_in_a_diagnostic() {
    let state = state(2);
    let body = "{\"candidates\":[{\"content\":{\"parts\":[{\"text\":5}]}}]}";
    match chat_handler(&state, Chat::Exchanged(Exchange::Replied(body.as_bytes().to_vec()))) {
        ChatAction::Respond { text, diagnostic } => {
            assert!(diagnostic);
            assert!(!text.is_empty());
            assert_eq!(text, "Error parsing Gemini response (Check Docker Logs for raw JSON).");
        }
        other => panic!("no response: {:?}", other),
    }
}

#[test]
fn a_question_of_the_wrong_dimension_ends_in_a_text() {
    let state = state(2);
    let embedded = Chat::Embedded { question: "q".to_string(), vector: vec![1, 2, 3] };
    assert_eq!(
        chat_handler(&state, embedded),
        ChatAction::Respond { text: RETRIEVAL_ERROR.to_string(), diagnostic: true }
    );
}

#[test]
fn a_chat_takes_the_three_nearest_documents() {
    let mut state = state(1);
    let documents = vec![
        document("far", &[100]),
        document("near", &[1]),
        document("farther", &[-200]),
        document("nearest", &[0]),
        document("mid", &[-50]),
    ];
    seed_knowledge(&mut state, documents).unwrap();
    assert_eq!(NEIGHBOURS, 3);
    match chat_handler(&state, Chat::Embedded { question: "q".to_string(), vector: vec![0] }) {
        ChatAction::Generate { prompt, .. } => {
            assert_eq!(prompt, Brain::prompt("nearest\n---\nnear\n---\nmid", "q"));
        }
        other => panic!("no generation call: {:?}", other),
    }
}

#[test]
fn a_chat_on_an_empty_knowledge_base_has_an_empty_context() {
    let state = state(1);
    match chat_handler(&state, Chat::Embedded { question: "q".to_string(), vector: vec![0] }) {
        ChatAction::Generate { prompt, .. } => assert_eq!(prompt, Brain::prompt("", "q")),
        other => panic!("no generation call: {:?}", other),
    }
}

#[test]
fn the_context_joins_contents_with_the_delimiter() {
    let a = document("a", &[]);
    let b = document("b", &[]);
    let c = document("", &[]);
    assert_eq!(CONTEXT_DELIMITER, "\n---\n");
    assert_eq!(assemble_context(&vec![]), "");
    assert_eq!(assemble_context(&vec![&a]), "a");
    assert_eq!(assemble_context(&vec![&a, &b]), "a\n---\nb");
    assert_eq!(assemble_context(&vec![&a, &c, &b]), "a\n---\n\n---\nb");
}

#[test]
fn nearest_returns_stored_documents_by_rising_distance() {
    let mut store = VectorStore::new(2);
    assert_eq!(store.embedding_dimension(), 2);
    for (content, embedding) in
        [("d5", [3, 4]), ("d0", [0, 0]), ("d13", [-5, 12]), ("d1", [0, -1]), ("d5b", [-4, 3])]
    {
        assert_eq!(store.upsert(document(content, &embedding)), Ok(()));
    }
    assert_eq!(store.len(), 5);
    let all = store.nearest(&vec![0, 0], 10).unwrap();
    assert_eq!(contents(&all), vec!["d0", "d1", "d5", "d5b", "d13"]);
    let two = store.nearest(&vec![0, 0], 2).unwrap();
    assert_eq!(contents(&two), vec!["d0", "d1"]);
    let from_elsewhere = store.nearest(&vec![-5, 11], 3).unwrap();
    assert_eq!(contents(&from_elsewhere), vec!["d13", "d5b", "d5"]);
    assert_eq!(store.nearest(&vec![0, 0], 0).unwrap().len(), 0);
    assert_eq!(store.document(1), Some(&document("d0", &[0, 0])));
    assert_eq!(store.document(5), None);
}

#[test]
fn nearest_never_returns_what_was_reset() {
    let mut store = VectorStore::new(1);
    store.upsert(document("old", &[1])).unwrap();
    store.reset();
    assert_eq!(store.len(), 0);
    assert_eq!(store.nearest(&vec![1], 3).unwrap().len(), 0);
    store.upsert(document("new", &[5])).unwrap();
    assert_eq!(contents(&store.nearest(&vec![1], 3).unwrap()), vec!["new"]);
}

#[test]
fn a_vector_of_another_dimension_is_refused() {
    let mut store = VectorStore::new(3);
    assert_eq!(
        store.upsert(document("short", &[1, 2])),
        Err(StoreError::DimensionMismatch { expected: 3, found: 2 })
    );
    assert_eq!(store.len(), 0);
    assert_eq!(
        store.nearest(&vec![1, 2, 3, 4], 1).err(),
        Some(StoreError::DimensionMismatch { expected: 3, found: 4 })
    );
    assert_eq!(
        distance(&vec![1], &vec![]),
        Err(StoreError::DimensionMismatch { expected: 1, found: 0 })
    );
}

#[test]
fn the_distance_is_the_sum_of_the_squared_gaps() {
    assert_eq!(distance(&vec![], &vec![]), Ok(0));
    assert_eq!(distance(&vec![3, -4], &vec![0, 0]), Ok(25));
    assert_eq!(distance(&vec![1, 2, 3], &vec![4, 6, 3]), Ok(25));
    assert_eq!(distance(&vec![7], &vec![7]), Ok(0));
    let widest = (i32::MAX as i128 - i32::MIN as i128) as u128;
    assert_eq!(
        distance(&vec![i32::MAX, i32::MIN], &vec![i32::MIN, i32::MAX]),
        Ok(2 * widest * widest)
    );
}

#[test]
fn seeding_stops_at_the_first_document_that_does_not_fit() {
    let mut state = state(2);
    let documents = vec![
        document("first", &[1, 1]),
        document("bad", &[1]),
        document("last", &[2, 2]),
    ];
    assert_eq!(
        seed_knowledge(&mut state, documents),
        Err(StoreError::DimensionMismatch { expected: 2, found: 1 })
    );
    assert_eq!(state.knowledge.len(), 1);
    assert_eq!(state.knowledge.document(0), Some(&document("first", &[1, 1])));
    assert_eq!(seed_knowledge(&mut state, vec![]), Ok(SEEDED));
    assert_eq!(state.knowledge.len(), 1);
}

#[test]
fn extending_a_store_counts_what_was_stored() {
    let mut store = VectorStore::new(1);
    assert_eq!(store.extend(vec![document("a", &[1]), document("b", &[2])]), Ok(2));
    assert_eq!(store.extend(vec![]), Ok(0));
    assert_eq!(
        store.extend(vec![document("c", &[]), document("d", &[4])]),
        Err(StoreError::DimensionMismatch { expected: 1, found: 0 })
    );
    assert_eq!(store.len(), 2);
}

#[test]
fn facts_are_the_trimmed_lines_that_are_no_comments() {
    let text = "  Nick knows Rust  \n# a comment\n\n   \t\r\nNick is a Sim Engineer\r\n  # indented comment\nlast fact";
    assert_eq!(
        knowledge_facts(text),
        vec!["Nick knows Rust", "Nick is a Sim Engineer", "last fact"]
    );
}

#[test]
fn facts_of_edge_texts() {
    assert_eq!(knowledge_facts(""), Vec::<String>::new());
    assert_eq!(knowledge_facts("\n\n\n"), Vec::<String>::new());
    assert_eq!(knowledge_facts("#only a comment"), Vec::<String>::new());
    assert_eq!(knowledge_facts("one"), vec!["one"]);
    assert_eq!(knowledge_facts("one\n"), vec!["one"]);
    assert_eq!(knowledge_facts("a # b"), vec!["a # b"]);
    assert_eq!(knowledge_facts("\u{a0}caf\u{e9} \u{2003}\n\u{3000}#x"), vec!["caf\u{e9}"]);
    assert_eq!(knowledge_facts("x\u{200b}"), vec!["x\u{200b}"]);
    for line in knowledge_facts(" a \n b ") {
        assert_eq!(line, line.trim());
    }
}

#[test]
fn facts_agree_with_the_lines_of_the_text() {
    let text = "alpha\r\n beta\n\n#gamma\n delta \r";
    let expected: Vec<String> = text
        .lines()
        .map(|line| line.trim())
        .filter(|line| !line.is_empty() && !line.starts_with('#'))
        .map(|line| line.to_string())
        .collect();
    assert_eq!(knowledge_facts(text), expected);
}

#[test]
fn seeding_at_start_up_replaces_the_knowledge_base() {
    let mut state = state(1);
    seed_knowledge(&mut state, vec![document("stale", &[0])]).unwrap();
    let action = auto_seed(&mut state, Seeding::Source(Some("fresh\n# note\nnew".to_string())));
    assert_eq!(action, SeedAction::Embed(vec!["fresh".to_string(), "new".to_string()]));
    assert_eq!(state.knowledge.len(), 0);
    let embedded = vec![document("fresh", &[1]), document("new", &[2])];
    assert_eq!(auto_seed(&mut state, Seeding::Embedded(embedded)), SeedAction::Stored(2));
    assert_eq!(state.knowledge.len(), 2);
    assert_eq!(state.knowledge.document(1), Some(&document("new", &[2])));
}

#[test]
fn seeding_without_a_knowledge_text_does_nothing() {
    let mut state = state(1);
    seed_knowledge(&mut state, vec![document("kept", &[0])]).unwrap();
    assert_eq!(auto_seed(&mut state, Seeding::Source(None)), SeedAction::Skip);
    assert_eq!(state.knowledge.len(), 1);
}

#[test]
fn seeding_at_start_up_reports_a_document_that_does_not_fit() {
    let mut state = state(2);
    let embedded = vec![document("ok", &[1, 2]), document("bad", &[1, 2, 3])];
    assert_eq!(
        auto_seed(&mut state, Seeding::Embedded(embedded)),
        SeedAction::Refused(StoreError::DimensionMismatch { expected: 2, found: 3 })
    );
    assert_eq!(state.knowledge.len(), 1);
}

#[test]
fn white_space_is_what_the_standard_library_says() {
    for code in 0..=0x10ffffu32 {
        if let Some(c) = char::from_u32(code) {
            assert_eq!(is_white_space(c), c.is_whitespace(), "U+{:04X}", code);
        }
    }
}
