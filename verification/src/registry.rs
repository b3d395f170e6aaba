//! The backend registry: the pure mapping from a symbolic model name or
//! optional task parameters to a fully specified backend configuration.
//!
//! Unknown or absent names never fail — they resolve to the task's fixed
//! default configuration, the same leniency that language resolution has.

use vstd::prelude::*;

verus! {

/// The model architecture a summarization configuration builds on.
#[derive(Debug, Clone, Copy, PartialEq, Eq, Structural)]
pub enum ModelKind {
    Bart,
    Pegasus,
    ProphetNet,
    LongT5,
}

/// The closed set of summarization backend variants, the default encoded
/// as a named variant of its own rather than an implicit else-branch.
#[derive(Debug, Clone, Copy, PartialEq, Eq, Structural)]
pub enum SummarizationVariant {
    /// The fixed default: the full CNN-tuned BART model.
    BartCnn,
    /// The fast, distilled variant.
    DistilBart,
    /// The news-style variant.
    Pegasus,
    /// The alternative-architecture variant.
    ProphetNet,
    /// The long-document variant.
    LongT5,
}

/// A fully specified summarization backend: the architecture and the
/// pretrained resource identifiers the opaque model provider loads.
#[derive(Debug)]
pub struct SummarizationConfig {
    pub variant: SummarizationVariant,
    pub model: ModelKind,
    pub model_resource: String,
    pub config_resource: String,
    pub vocab_resource: String,
    pub merges_resource: Option<String>,
}

/// The ghost image of a [`SummarizationConfig`].
pub struct SummarizationConfigV {
    pub variant: SummarizationVariant,
    pub model: ModelKind,
    pub model_resource: Seq<char>,
    pub config_resource: Seq<char>,
    pub vocab_resource: Seq<char>,
    pub merges_resource: Option<Seq<char>>,
}

impl View for SummarizationConfig {
    type V = SummarizationConfigV;

    open spec fn view(&self) -> SummarizationConfigV {
        SummarizationConfigV {
            variant: self.variant,
            model: self.model,
            model_resource: self.model_resource@,
            config_resource: self.config_resource@,
            vocab_resource: self.vocab_resource@,
            merges_resource: (match self.merges_resource {
                Some(ref m) => Some(m@),
                None => None,
            }),
        }
    }
}

/// The default summarization backend.
pub open spec fn bart_cnn_spec() -> SummarizationConfigV {
    SummarizationConfigV {
        variant: SummarizationVariant::BartCnn,
        model: ModelKind::Bart,
        model_resource: "bart-cnn/model"@,
        config_resource: "bart-cnn/config"@,
        vocab_resource: "bart-cnn/vocab"@,
        merges_resource: Some("bart-cnn/merges"@),
    }
}

/// The distilled BART backend.
pub open spec fn distil_bart_spec() -> SummarizationConfigV {
    SummarizationConfigV {
        variant: SummarizationVariant::DistilBart,
        model: ModelKind::Bart,
        model_resource: "distilbart-cnn-6-6/model"@,
        config_resource: "distilbart-cnn-6-6/config"@,
        vocab_resource: "distilbart-cnn-6-6/vocab"@,
        merges_resource: Some("distilbart-cnn-6-6/merges"@),
    }
}

/// The Pegasus backend.
pub open spec fn pegasus_spec() -> SummarizationConfigV {
    SummarizationConfigV {
        variant: SummarizationVariant::Pegasus,
        model: ModelKind::Pegasus,
        model_resource: "pegasus-cnn_dailymail/model"@,
        config_resource: "pegasus-cnn_dailymail/config"@,
        vocab_resource: "pegasus-cnn_dailymail/spiece"@,
        merges_resource: None,
    }
}

/// The ProphetNet backend.
pub open spec fn prophetnet_spec() -> SummarizationConfigV {
    SummarizationConfigV {
        variant: SummarizationVariant::ProphetNet,
        model: ModelKind::ProphetNet,
        model_resource: "prophetnet-large-uncased/model"@,
        config_resource: "prophetnet-large-uncased/config"@,
        vocab_resource: "prophetnet-large-uncased/vocab"@,
        merges_resource: None,
    }
}

/// The LongT5 backend.
pub open spec fn long_t5_spec() -> SummarizationConfigV {
    SummarizationConfigV {
        variant: SummarizationVariant::LongT5,
        model: ModelKind::LongT5,
        model_resource: "longt5-tglobal-base-book-summary/model"@,
        config_resource: "longt5-tglobal-base-book-summary/config"@,
        vocab_resource: "longt5-tglobal-base-book-summary/spiece"@,
        merges_resource: None,
    }
}

/// Which summarization backend a model name selects: the four named
/// variants by their names, everything else — including no name at all —
/// the fixed default.
pub open spec fn select_summarization_spec(name: Option<Seq<char>>) -> SummarizationConfigV {
    match name {
        Some(s) => {
            if s == "distilbart"@ {
                distil_bart_spec()
            } else if s == "pegasus"@ {
                pegasus_spec()
            } else if s == "prophetnet"@ {
                prophetnet_spec()
            } else if s == "long_t5"@ {
                long_t5_spec()
            } else {
                bart_cnn_spec()
            }
        },
        None => bart_cnn_spec(),
    }
}

fn owned(s: &str) -> (r: String)
    ensures
        r@ == s@,
{
    s.to_owned()
}

/// The named summarization backend configurations.
pub struct SummarizationConfigFactory;

impl SummarizationConfigFactory {
    /// The fixed default configuration, selected by any unknown or absent
    /// name.
    pub fn bart_cnn() -> (r: SummarizationConfig)
        ensures
            r@ == bart_cnn_spec(),
    {
        SummarizationConfig {
            variant: SummarizationVariant::BartCnn,
            model: ModelKind::Bart,
            model_resource: owned("bart-cnn/model"),
            config_resource: owned("bart-cnn/config"),
            vocab_resource: owned("bart-cnn/vocab"),
            merges_resource: Some(owned("bart-cnn/merges")),
        }
    }

    /// The fast, distilled variant.
    pub fn distil_bart() -> (r: SummarizationConfig)
        ensures
            r@ == distil_bart_spec(),
    {
        SummarizationConfig {
            variant: SummarizationVariant::DistilBart,
            model: ModelKind::Bart,
            model_resource: owned("distilbart-cnn-6-6/model"),
            config_resource: owned("distilbart-cnn-6-6/config"),
            vocab_resource: owned("distilbart-cnn-6-6/vocab"),
            merges_resource: Some(owned("distilbart-cnn-6-6/merges")),
        }
    }

    /// The news-style variant.
    pub fn pegasus() -> (r: SummarizationConfig)
        ensures
            r@ == pegasus_spec(),
    {
        SummarizationConfig {
            variant: SummarizationVariant::Pegasus,
            model: ModelKind::Pegasus,
            model_resource: owned("pegasus-cnn_dailymail/model"),
            config_resource: owned("pegasus-cnn_dailymail/config"),
            vocab_resource: owned("pegasus-cnn_dailymail/spiece"),
            merges_resource: None,
        }
    }

    /// The alternative-architecture variant.
    pub fn prophetnet() -> (r: SummarizationConfig)
        ensures
            r@ == prophetnet_spec(),
    {
        SummarizationConfig {
            variant: SummarizationVariant::ProphetNet,
            model: ModelKind::ProphetNet,
            model_resource: owned("prophetnet-large-uncased/model"),
            config_resource: owned("prophetnet-large-uncased/config"),
            vocab_resource: owned("prophetnet-large-uncased/vocab"),
            merges_resource: None,
        }
    }

    /// The long-document variant.
    pub fn long_t5() -> (r: SummarizationConfig)
        ensures
            r@ == long_t5_spec(),
    {
        SummarizationConfig {
            variant: SummarizationVariant::LongT5,
            model: ModelKind::LongT5,
            model_resource: owned("longt5-tglobal-base-book-summary/model"),
            config_resource: owned("longt5-tglobal-base-book-summary/config"),
            vocab_resource: owned("longt5-tglobal-base-book-summary/spiece"),
            merges_resource: None,
        }
    }
}

/// Selects the summarization backend for an optional model name, with the
/// leniency invariant: no name and no known name both yield the fixed
/// default.
pub fn select_summarization(name: &Option<String>) -> (r: SummarizationConfig)
    ensures
        r@ == select_summarization_spec(match name {
            Some(s) => Some(s@),
            None => None,
        }),
{
    match name {
        Some(s) => {
            if crate::lang::str_eq(s.as_str(), "distilbart") {
                SummarizationConfigFactory::distil_bart()
            } else if crate::lang::str_eq(s.as_str(), "pegasus") {
                SummarizationConfigFactory::pegasus()
            } else if crate::lang::str_eq(s.as_str(), "prophetnet") {
                SummarizationConfigFactory::prophetnet()
            } else if crate::lang::str_eq(s.as_str(), "long_t5") {
                SummarizationConfigFactory::long_t5()
            } else {
                SummarizationConfigFactory::bart_cnn()
            }
        },
        None => SummarizationConfigFactory::bart_cnn(),
    }
}

/// How keyword candidates are scored against the document.
#[derive(Debug, Clone, Copy, PartialEq, Eq, Structural)]
pub enum KeywordScorer {
    CosineSimilarity,
}

/// A keyword extraction backend configuration: how many keywords to
/// return and which n-gram lengths count as a candidate.
#[derive(Debug, Clone, Copy, PartialEq, Eq, Structural)]
pub struct KeywordConfig {
    pub num_keywords: usize,
    pub ngram_min: usize,
    pub ngram_max: usize,
    pub scorer: KeywordScorer,
}

/// How many keywords extraction returns when the caller names no count.
pub const DEFAULT_KEYWORD_COUNT: usize = 5;

/// The named keyword extraction configurations.
pub struct KeywordConfigFactory;

impl KeywordConfigFactory {
    /// A configuration with a chosen keyword count and single-word
    /// candidates.
    pub fn variable_keyword_number(how_many: usize) -> (r: KeywordConfig)
        ensures
            r == (KeywordConfig {
                num_keywords: how_many,
                ngram_min: 1usize,
                ngram_max: 1usize,
                scorer: KeywordScorer::CosineSimilarity,
            }),
    {
        KeywordConfig {
            num_keywords: how_many,
            ngram_min: 1,
            ngram_max: 1,
            scorer: KeywordScorer::CosineSimilarity,
        }
    }

    /// A configuration with a chosen keyword count and a chosen n-gram
    /// span.
    pub fn variable_keyword_number_ngram(how_many: usize, ngram_range: (usize, usize)) -> (r:
        KeywordConfig)
        ensures
            r == (KeywordConfig {
                num_keywords: how_many,
                ngram_min: ngram_range.0,
                ngram_max: ngram_range.1,
                scorer: KeywordScorer::CosineSimilarity,
            }),
    {
        KeywordConfig {
            num_keywords: how_many,
            ngram_min: ngram_range.0,
            ngram_max: ngram_range.1,
            scorer: KeywordScorer::CosineSimilarity,
        }
    }
}

/// The keyword configuration each combination of optional parameters
/// selects; each parameter defaults independently when absent.
pub open spec fn select_keyword_config_spec(
    how_many: Option<usize>,
    ngram_range: Option<(usize, usize)>,
) -> KeywordConfig {
    KeywordConfig {
        num_keywords: (match how_many {
            Some(h) => h,
            None => DEFAULT_KEYWORD_COUNT,
        }),
        ngram_min: (match ngram_range {
            Some(r) => r.0,
            None => 1usize,
        }),
        ngram_max: (match ngram_range {
            Some(r) => r.1,
            None => 1usize,
        }),
        scorer: KeywordScorer::CosineSimilarity,
    }
}

/// Selects the keyword extraction backend for the caller's optional
/// parameters: all four presence combinations are supported, and each
/// absent parameter independently falls back to its default.
pub fn select_keyword_config(how_many: Option<usize>, ngram_range: Option<(usize, usize)>) -> (r:
    KeywordConfig)
    ensures
        r == select_keyword_config_spec(how_many, ngram_range),
{
    if how_many.is_some() && ngram_range.is_some() {
        KeywordConfigFactory::variable_keyword_number_ngram(
            how_many.unwrap(),
            ngram_range.unwrap(),
        )
    } else if how_many.is_some() {
        KeywordConfigFactory::variable_keyword_number(how_many.unwrap())
    } else if ngram_range.is_some() {
        KeywordConfigFactory::variable_keyword_number_ngram(
            DEFAULT_KEYWORD_COUNT,
            ngram_range.unwrap(),
        )
    } else {
        KeywordConfigFactory::variable_keyword_number(DEFAULT_KEYWORD_COUNT)
    }
}

/// The five general categories zero-shot classification scores against
/// when the caller supplies no labels.
pub open spec fn default_labels_spec() -> Seq<Seq<char>> {
    seq!["politics"@, "public health"@, "economics"@, "sports"@, "arts"@]
}

/// The candidate labels of one zero-shot dispatch: the caller's, or the
/// fixed default set.
pub fn resolve_labels(labels: Option<Vec<String>>) -> (r: Vec<String>)
    ensures
        (match labels {
            Some(l) => r == l,
            None => r.deep_view() == default_labels_spec(),
        }),
{
    match labels {
        Some(l) => l,
        None => {
            let mut out: Vec<String> = Vec::new();
            out.push(owned("politics"));
            out.push(owned("public health"));
            out.push(owned("economics"));
            out.push(owned("sports"));
            out.push(owned("arts"));
            proof {
                assert(out.deep_view() =~= default_labels_spec());
            }
            out
        },
    }
}

/// The token length the zero-shot classifier truncates each chunk to.
pub const ZERO_SHOT_MAX_LENGTH: usize = 128;

/// Backend selection is stable: the same optional name always selects the
/// same configuration — there is no hidden state or randomness in the
/// registry — and the absent name selects the fixed default.
pub proof fn lemma_backend_selection_stable(a: Option<Seq<char>>, b: Option<Seq<char>>)
    requires
        a == b,
    ensures
        select_summarization_spec(a) == select_summarization_spec(b),
        select_summarization_spec(None) == bart_cnn_spec(),
{
}

} // verus!
