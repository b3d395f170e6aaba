use nlp_dispatch::dispatch::{aggregate_results, collect_indexed, concat_strings, join_space,
    reassemble};
use nlp_dispatch::error::{BackendError, Status};
use nlp_dispatch::response::{extraction_response, simple_text_response, translation_response,
    zero_shot_response};
use nlp_dispatch::segment::handle_split;
use nlp_dispatch::registry::select_keyword_config;
use nlp_dispatch::lang::{resolve_translation_languages, SupportedLanguage};

type ChunkResult = Result<Vec<(String, f32)>, BackendError>;

fn keywords(words: &[&str]) -> Vec<(String, f32)> {
    words.iter().map(|w| (String::from(*w), 0.5f32)).collect()
}

#[test]
fn out_of_order_completions_land_in_chunk_order() {
    let input = String::from("One is here. Two is there. Three ends.");
    let chunks = handle_split(input, true);
    assert_eq!(chunks.len(), 3);
    // Workers finish in a scrambled order; the pairs arrive tagged.
    let pairs: Vec<(usize, ChunkResult)> = vec![
        (2, Ok(keywords(&["three"]))),
        (0, Ok(keywords(&["one"]))),
        (1, Ok(keywords(&["two"]))),
    ];
    let collected = collect_indexed(chunks.len(), pairs).unwrap();
    assert_eq!(collected.len(), 3);
    assert_eq!(collected[0][0].0, "one");
    assert_eq!(collected[1][0].0, "two");
    assert_eq!(collected[2][0].0, "three");
}

#[test]
fn reassembly_ignores_arrival_order() {
    let forward = reassemble(3, vec![(0, 10u64), (1, 11u64), (2, 12u64)]).unwrap();
    let scrambled = reassemble(3, vec![(1, 11u64), (2, 12u64), (0, 10u64)]).unwrap();
    assert_eq!(forward, vec![10, 11, 12]);
    assert_eq!(forward, scrambled);
}

#[test]
fn reassembly_rejects_missing_duplicate_or_stray_indices() {
    assert!(reassemble(3, vec![(0, 1u64), (1, 2u64)]).is_none());
    assert!(reassemble(2, vec![(0, 1u64), (0, 2u64)]).is_none());
    assert!(reassemble(2, vec![(0, 1u64), (5, 2u64)]).is_none());
    assert_eq!(reassemble(0, Vec::<(usize, u64)>::new()), Some(Vec::new()));
}

#[test]
fn one_failure_fails_the_whole_dispatch() {
    let pairs: Vec<(usize, ChunkResult)> = vec![
        (0, Ok(keywords(&["fine"]))),
        (1, Err(BackendError::Inference(String::from("forced failure")))),
        (2, Ok(keywords(&["also fine"]))),
    ];
    let collected = collect_indexed(3, pairs);
    assert!(collected.is_err());
    let body = extraction_response(collected);
    assert_eq!(body.status, Status::Failed);
    assert_eq!(body.status.text(), String::from("Failed"));
    assert!(body.results.is_empty());
}

#[test]
fn missing_delivery_is_its_own_error() {
    let pairs: Vec<(usize, Result<String, BackendError>)> =
        vec![(0, Ok(String::from("only chunk")))];
    match collect_indexed(2, pairs) {
        Err(BackendError::Delivery) => {},
        _ => panic!("a missing chunk index must surface as a delivery failure"),
    }
}

#[test]
fn aggregation_keeps_values_in_order() {
    let results: Vec<Result<u64, BackendError>> = vec![Ok(7), Ok(8), Ok(9)];
    assert_eq!(aggregate_results(results).unwrap(), vec![7, 8, 9]);
    let empty: Vec<Result<u64, BackendError>> = Vec::new();
    assert_eq!(aggregate_results(empty).unwrap(), Vec::<u64>::new());
}

#[test]
fn aggregation_reports_the_first_failure() {
    let results: Vec<Result<u64, BackendError>> = vec![
        Ok(7),
        Err(BackendError::ModelLoad(String::from("first"))),
        Err(BackendError::Inference(String::from("second"))),
    ];
    match aggregate_results(results) {
        Err(BackendError::ModelLoad(msg)) => assert_eq!(msg, String::from("first")),
        _ => panic!("the first failure must be the one reported"),
    }
}

#[test]
fn zero_shot_failure_still_reports_the_attempted_chunks() {
    let attempted = handle_split(String::from("What was tried. And this too."), true);
    assert_eq!(attempted.len(), 2);
    let outcome: Result<Vec<Vec<(String, f32)>>, BackendError> =
        Err(BackendError::ModelLoad(String::from("no weights")));
    let body = zero_shot_response(attempted.clone(), outcome);
    assert_eq!(body.status, Status::Failed);
    assert_eq!(body.sentences, attempted);
    assert!(body.responses.is_empty());
}

#[test]
fn zero_shot_success_keeps_chunks_and_scores() {
    let sentences = vec![String::from("A."), String::from("B.")];
    let scores = vec![keywords(&["label-a"]), keywords(&["label-b"])];
    let body = zero_shot_response(sentences.clone(), Ok(scores.clone()));
    assert_eq!(body.status, Status::Succeeded);
    assert_eq!(body.status.text(), String::from("OK"));
    assert_eq!(body.sentences, sentences);
    assert_eq!(body.responses.len(), body.sentences.len());
}

#[test]
fn zero_shot_misaligned_answer_is_reported_as_failure() {
    let sentences = vec![String::from("A."), String::from("B.")];
    let one_list_short = vec![keywords(&["label-a"])];
    let body = zero_shot_response(sentences.clone(), Ok(one_list_short));
    assert_eq!(body.status, Status::Failed);
    assert_eq!(body.sentences, sentences);
    assert!(body.responses.is_empty());
}

#[test]
fn simple_text_bodies_carry_status_and_detail() {
    let ok = simple_text_response(Ok(String::from("a short summary")));
    assert_eq!(ok.text, String::from("a short summary"));
    assert_eq!(ok.status, Status::Succeeded);
    let failed = simple_text_response(Err(BackendError::Inference(String::from("boom"))));
    assert_eq!(failed.text, String::from("boom"));
    assert_eq!(failed.status, Status::Failed);
    let lost = simple_text_response(Err(BackendError::Delivery));
    assert_eq!(lost.text, String::from("result delivery channel closed"));
    assert_eq!(lost.status, Status::Failed);
}

#[test]
fn translation_scenario_hello_world_to_french() {
    let (target, source) = resolve_translation_languages("fr", &None);
    assert_eq!(target, SupportedLanguage::Fr);
    assert_eq!(source, SupportedLanguage::En);
    // The opaque backend answers; the response keeps the original text.
    let body = translation_response(
        String::from("Hello world."),
        Ok(String::from("Bonjour le monde.")),
    );
    assert_eq!(body.orig_text, String::from("Hello world."));
    assert!(!body.translation.is_empty());
}

#[test]
fn translation_failure_carries_the_account() {
    let body = translation_response(
        String::from("Hello world."),
        Err(BackendError::ModelLoad(String::from("weights unavailable"))),
    );
    assert_eq!(body.orig_text, String::from("Hello world."));
    assert_eq!(body.translation, String::from("weights unavailable"));
}

#[test]
fn unsplit_extraction_yields_one_inner_list_of_at_most_three() {
    let chunks = handle_split(String::from("Rust is fast. Rust is safe."), false);
    assert_eq!(chunks.len(), 1);
    let config = select_keyword_config(Some(3), None);
    assert_eq!(config.num_keywords, 3);
    // The backend returns at most num_keywords pairs for the one chunk.
    let top = keywords(&["rust", "fast", "safe"]);
    assert!(top.len() <= config.num_keywords);
    let pairs: Vec<(usize, ChunkResult)> = vec![(0, Ok(top))];
    let body = extraction_response(collect_indexed(chunks.len(), pairs));
    assert_eq!(body.status, Status::Succeeded);
    assert_eq!(body.results.len(), 1);
    assert!(body.results[0].len() <= 3);
}

#[test]
fn joining_chunks_back_together() {
    let parts = vec![String::from("Bonjour "), String::from("le monde.")];
    assert_eq!(concat_strings(&parts), String::from("Bonjour le monde."));
    assert_eq!(concat_strings(&Vec::new()), String::new());
    let sentences = vec![String::from("First."), String::from("Second."), String::from("Third.")];
    assert_eq!(join_space(&sentences), String::from("First. Second. Third."));
    assert_eq!(join_space(&vec![String::from("only")]), String::from("only"));
    assert_eq!(join_space(&Vec::new()), String::new());
}
