use nlp_dispatch::registry::{
    resolve_labels, select_keyword_config, select_summarization, KeywordConfig,
    KeywordConfigFactory, KeywordScorer, ModelKind, SummarizationConfig,
    SummarizationConfigFactory, SummarizationVariant, DEFAULT_KEYWORD_COUNT,
    ZERO_SHOT_MAX_LENGTH,
};

fn same_config(a: &SummarizationConfig, b: &SummarizationConfig) -> bool {
    a.variant == b.variant && a.model == b.model && a.model_resource == b.model_resource
        && a.config_resource == b.config_resource && a.vocab_resource == b.vocab_resource
        && a.merges_resource == b.merges_resource
}

#[test]
fn default_selection_is_stable() {
    let first = select_summarization(&None);
    let second = select_summarization(&None);
    assert!(same_config(&first, &second));
    assert_eq!(first.variant, SummarizationVariant::BartCnn);
}

#[test]
fn named_variants_select_themselves() {
    assert_eq!(
        select_summarization(&Some(String::from("distilbart"))).variant,
        SummarizationVariant::DistilBart
    );
    assert_eq!(
        select_summarization(&Some(String::from("pegasus"))).variant,
        SummarizationVariant::Pegasus
    );
    assert_eq!(
        select_summarization(&Some(String::from("prophetnet"))).variant,
        SummarizationVariant::ProphetNet
    );
    assert_eq!(
        select_summarization(&Some(String::from("long_t5"))).variant,
        SummarizationVariant::LongT5
    );
}

#[test]
fn unknown_name_selects_the_default() {
    let by_unknown = select_summarization(&Some(String::from("mystery-model")));
    let by_absent = select_summarization(&None);
    assert!(same_config(&by_unknown, &by_absent));
}

#[test]
fn distil_bart_resources_are_pinned() {
    let config = SummarizationConfigFactory::distil_bart();
    assert_eq!(config.model, ModelKind::Bart);
    assert_eq!(config.model_resource, String::from("distilbart-cnn-6-6/model"));
    assert_eq!(config.config_resource, String::from("distilbart-cnn-6-6/config"));
    assert_eq!(config.vocab_resource, String::from("distilbart-cnn-6-6/vocab"));
    assert_eq!(config.merges_resource, Some(String::from("distilbart-cnn-6-6/merges")));
}

#[test]
fn sentencepiece_variants_carry_no_merges() {
    assert_eq!(SummarizationConfigFactory::pegasus().merges_resource, None);
    assert_eq!(SummarizationConfigFactory::prophetnet().merges_resource, None);
    assert_eq!(SummarizationConfigFactory::long_t5().merges_resource, None);
    assert_eq!(
        SummarizationConfigFactory::long_t5().model_resource,
        String::from("longt5-tglobal-base-book-summary/model")
    );
}

#[test]
fn keyword_parameters_default_independently() {
    let neither = select_keyword_config(None, None);
    assert_eq!(
        neither,
        KeywordConfig {
            num_keywords: DEFAULT_KEYWORD_COUNT,
            ngram_min: 1,
            ngram_max: 1,
            scorer: KeywordScorer::CosineSimilarity,
        }
    );
    let count_only = select_keyword_config(Some(7), None);
    assert_eq!(count_only.num_keywords, 7);
    assert_eq!((count_only.ngram_min, count_only.ngram_max), (1, 1));
    let ngram_only = select_keyword_config(None, Some((2, 3)));
    assert_eq!(ngram_only.num_keywords, DEFAULT_KEYWORD_COUNT);
    assert_eq!((ngram_only.ngram_min, ngram_only.ngram_max), (2, 3));
    let both = select_keyword_config(Some(9), Some((1, 2)));
    assert_eq!(both.num_keywords, 9);
    assert_eq!((both.ngram_min, both.ngram_max), (1, 2));
}

#[test]
fn keyword_factory_matches_selection() {
    assert_eq!(
        KeywordConfigFactory::variable_keyword_number(4),
        select_keyword_config(Some(4), None)
    );
    assert_eq!(
        KeywordConfigFactory::variable_keyword_number_ngram(6, (2, 2)),
        select_keyword_config(Some(6), Some((2, 2)))
    );
}

#[test]
fn absent_labels_fall_back_to_the_default_five() {
    let labels = resolve_labels(None);
    assert_eq!(
        labels,
        vec![
            String::from("politics"),
            String::from("public health"),
            String::from("economics"),
            String::from("sports"),
            String::from("arts")
        ]
    );
}

#[test]
fn given_labels_pass_through_unchanged() {
    let mine = vec![String::from("cooking"), String::from("sailing")];
    assert_eq!(resolve_labels(Some(mine.clone())), mine);
}

#[test]
fn zero_shot_truncation_length() {
    assert_eq!(ZERO_SHOT_MAX_LENGTH, 128);
}
