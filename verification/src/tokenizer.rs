//! The configuration of a text analyzer for full-text search.
//!
//! A configuration names a base tokenizer and the filters to put behind it.
//! Building it assembles a `tantivy` text analyzer, stage by stage.

use vstd::prelude::*;
use vstd::string::*;
use tantivy::tokenizer::{Language, StopWordFilter, TextAnalyzer, TextAnalyzerBuilder};
use crate::text::same_text;

verus! {

/// `tantivy::tokenizer::Language`: the languages that stemming and stop words
/// know. It is declared with its variants, which carry no data, so that they
/// can be told apart here.
#[verifier::external_type_specification]
pub struct ExLanguage(Language);

/// `tantivy::tokenizer::TextAnalyzer`, carried through as an opaque value.
#[verifier::external_type_specification]
#[verifier::external_body]
pub struct ExTextAnalyzer(TextAnalyzer);

/// `tantivy::tokenizer::StopWordFilter`, carried through as an opaque value.
#[verifier::external_type_specification]
#[verifier::external_body]
pub struct ExStopWordFilter(StopWordFilter);

/// `Clone::clone` of `Language`, which copies the variant.
pub assume_specification[ <Language as Clone>::clone ](language: &Language) -> (copy: Language)
    ensures
        copy == *language,
;

/// A text analyzer under construction: a `tantivy` builder with type-erased
/// stages, which Verus cannot read.
#[verifier::external_body]
pub struct Pipeline {
    builder: TextAnalyzerBuilder,
}

/// One stage of a text analyzer: the tokenizer at its base, or a filter
/// behind it.
#[derive(Debug, Clone, Copy)]
pub enum Stage {
    /// Splits on whitespace and punctuation.
    Simple,
    /// Splits on whitespace.
    Whitespace,
    /// Does not split.
    Raw,
    /// Removes tokens of `limit` bytes or more.
    RemoveLong { limit: usize },
    /// Lower-cases tokens.
    LowerCase,
    /// Reduces tokens to their stems, by the rules of `language`.
    Stem { language: Language },
    /// Removes the stop words of `language`.
    StopWords { language: Language },
    /// Replaces letters outside ASCII by their ASCII look-alikes.
    AsciiFolding,
}

/// The stages that a pipeline holds, base first.
pub uninterp spec fn pipeline_stages(pipeline: Pipeline) -> Seq<Stage>;

/// The stages that a text analyzer holds, base first.
pub uninterp spec fn analyzer_stages(analyzer: TextAnalyzer) -> Seq<Stage>;

/// The language whose stop words a filter holds.
pub uninterp spec fn stop_word_language(filter: StopWordFilter) -> Language;

/// The language that `serde_json` reads from the JSON text `json`, if it
/// reads one.
pub uninterp spec fn json_language(json: Seq<char>) -> Option<Language>;

/// Whether `read` is in order for the JSON text `json` as far as the names of
/// the languages go: the name of a language between quotes reads as that
/// language.
pub open spec fn reads_names(json: Seq<char>, read: Option<Language>) -> bool {
    forall|known: Language| json == quoted(#[trigger] language_name(known)) ==> read == Some(known)
}

/// Whether `tantivy` has a list of stop words for `language`.
pub open spec fn has_stop_words(language: Language) -> bool {
    match language {
        Language::Danish => true,
        Language::Dutch => true,
        Language::English => true,
        Language::Finnish => true,
        Language::French => true,
        Language::German => true,
        Language::Hungarian => true,
        Language::Italian => true,
        Language::Norwegian => true,
        Language::Portuguese => true,
        Language::Russian => true,
        Language::Spanish => true,
        Language::Swedish => true,
        _ => false,
    }
}

/// Calls `TextAnalyzer::builder` on a `SimpleTokenizer` and boxes it with
/// `dynamic`: a pipeline of that tokenizer alone.
#[verifier::external_body]
fn simple_pipeline() -> (pipeline: Pipeline)
    ensures
        pipeline_stages(pipeline) == seq![Stage::Simple],
{
    let base = tantivy::tokenizer::SimpleTokenizer::default();
    Pipeline { builder: TextAnalyzer::builder(base).dynamic() }
}

/// Calls `TextAnalyzer::builder` on a `WhitespaceTokenizer` and boxes it with
/// `dynamic`: a pipeline of that tokenizer alone.
#[verifier::external_body]
fn whitespace_pipeline() -> (pipeline: Pipeline)
    ensures
        pipeline_stages(pipeline) == seq![Stage::Whitespace],
{
    let base = tantivy::tokenizer::WhitespaceTokenizer::default();
    Pipeline { builder: TextAnalyzer::builder(base).dynamic() }
}

/// Calls `TextAnalyzer::builder` on a `RawTokenizer` and boxes it with
/// `dynamic`: a pipeline of that tokenizer alone.
#[verifier::external_body]
fn raw_pipeline() -> (pipeline: Pipeline)
    ensures
        pipeline_stages(pipeline) == seq![Stage::Raw],
{
    let base = tantivy::tokenizer::RawTokenizer::default();
    Pipeline { builder: TextAnalyzer::builder(base).dynamic() }
}

/// Calls `TextAnalyzerBuilder::filter_dynamic` with `RemoveLongFilter::limit`,
/// which appends that filter.
#[verifier::external_body]
fn with_remove_long(pipeline: Pipeline, limit: usize) -> (longer: Pipeline)
    ensures
        pipeline_stages(longer) == pipeline_stages(pipeline).push(Stage::RemoveLong { limit }),
{
    let filter = tantivy::tokenizer::RemoveLongFilter::limit(limit);
    Pipeline { builder: pipeline.builder.filter_dynamic(filter) }
}

/// Calls `TextAnalyzerBuilder::filter_dynamic` with `LowerCaser`, which
/// appends that filter.
#[verifier::external_body]
fn with_lower_caser(pipeline: Pipeline) -> (longer: Pipeline)
    ensures
        pipeline_stages(longer) == pipeline_stages(pipeline).push(Stage::LowerCase),
{
    Pipeline { builder: pipeline.builder.filter_dynamic(tantivy::tokenizer::LowerCaser) }
}

/// Calls `TextAnalyzerBuilder::filter_dynamic` with `Stemmer::new`, which
/// appends the stemmer of `language`.
#[verifier::external_body]
fn with_stemmer(pipeline: Pipeline, language: Language) -> (longer: Pipeline)
    ensures
        pipeline_stages(longer) == pipeline_stages(pipeline).push(Stage::Stem { language }),
{
    let filter = tantivy::tokenizer::Stemmer::new(language);
    Pipeline { builder: pipeline.builder.filter_dynamic(filter) }
}

/// Calls `StopWordFilter::new`, which returns a filter for the languages that
/// have a list of stop words and nothing for the others.
#[verifier::external_body]
fn stop_word_filter(language: Language) -> (filter: Option<StopWordFilter>)
    ensures
        filter is Some <==> has_stop_words(language),
        filter matches Some(words) ==> stop_word_language(words) == language,
{
    StopWordFilter::new(language)
}

/// Calls `TextAnalyzerBuilder::filter_dynamic` with a stop word filter, which
/// appends it.
#[verifier::external_body]
fn with_stop_words(pipeline: Pipeline, filter: StopWordFilter) -> (longer: Pipeline)
    ensures
        pipeline_stages(longer) == pipeline_stages(pipeline).push(
            Stage::StopWords { language: stop_word_language(filter) },
        ),
{
    Pipeline { builder: pipeline.builder.filter_dynamic(filter) }
}

/// Calls `TextAnalyzerBuilder::filter_dynamic` with `AsciiFoldingFilter`,
/// which appends that filter.
#[verifier::external_body]
fn with_ascii_folding(pipeline: Pipeline) -> (longer: Pipeline)
    ensures
        pipeline_stages(longer) == pipeline_stages(pipeline).push(Stage::AsciiFolding),
{
    Pipeline { builder: pipeline.builder.filter_dynamic(tantivy::tokenizer::AsciiFoldingFilter) }
}

/// Calls `TextAnalyzerBuilder::build`, which makes the analyzer of the stages
/// collected.
#[verifier::external_body]
fn finish(pipeline: Pipeline) -> (analyzer: TextAnalyzer)
    ensures
        analyzer_stages(analyzer) == pipeline_stages(pipeline),
{
    pipeline.builder.build()
}

/// Calls `serde_json::from_str` for a `Language`: what it reads depends on
/// the text alone, and the name of a language between quotes reads as that
/// language, by the reader that `Language` derives. Where it reads none, its
/// error is handed on as the message that `to_string` gives.
#[verifier::external_body]
fn language_from_json(json: &str) -> (read: Result<Language, String>)
    ensures
        match read {
            Ok(language) => json_language(json@) == Some(language) && reads_names(
                json@,
                Some(language),
            ),
            Err(_) => json_language(json@) is None && reads_names(json@, None),
        },
{
    serde_json::from_str(json).map_err(|error: serde_json::Error| error.to_string())
}

/// Why a configuration could not be changed or built.
#[derive(Debug, Clone, PartialEq, Eq)]
pub enum TokenizerError {
    /// The configuration asks for what is not there.
    InvalidInput { message: String },
    /// A language name could not be read.
    Json { message: String },
}

/// The name of `language`, as it is written in a configuration.
pub open spec fn language_name(language: Language) -> Seq<char> {
    match language {
        Language::Arabic => "Arabic"@,
        Language::Danish => "Danish"@,
        Language::Dutch => "Dutch"@,
        Language::English => "English"@,
        Language::Finnish => "Finnish"@,
        Language::French => "French"@,
        Language::German => "German"@,
        Language::Greek => "Greek"@,
        Language::Hungarian => "Hungarian"@,
        Language::Italian => "Italian"@,
        Language::Norwegian => "Norwegian"@,
        Language::Portuguese => "Portuguese"@,
        Language::Romanian => "Romanian"@,
        Language::Russian => "Russian"@,
        Language::Spanish => "Spanish"@,
        Language::Swedish => "Swedish"@,
        Language::Tamil => "Tamil"@,
        Language::Turkish => "Turkish"@,
    }
}

/// The name of `language`, as it is written in a configuration.
pub fn name_of_language(language: Language) -> (name: &'static str)
    ensures
        name@ == language_name(language),
{
    match language {
        Language::Arabic => "Arabic",
        Language::Danish => "Danish",
        Language::Dutch => "Dutch",
        Language::English => "English",
        Language::Finnish => "Finnish",
        Language::French => "French",
        Language::German => "German",
        Language::Greek => "Greek",
        Language::Hungarian => "Hungarian",
        Language::Italian => "Italian",
        Language::Norwegian => "Norwegian",
        Language::Portuguese => "Portuguese",
        Language::Romanian => "Romanian",
        Language::Russian => "Russian",
        Language::Spanish => "Spanish",
        Language::Swedish => "Swedish",
        Language::Tamil => "Tamil",
        Language::Turkish => "Turkish",
    }
}

/// Whether a stop word filter can be had for `language`.
pub fn stop_words_known(language: Language) -> (known: bool)
    ensures
        known == has_stop_words(language),
{
    match language {
        Language::Danish => true,
        Language::Dutch => true,
        Language::English => true,
        Language::Finnish => true,
        Language::French => true,
        Language::German => true,
        Language::Hungarian => true,
        Language::Italian => true,
        Language::Norwegian => true,
        Language::Portuguese => true,
        Language::Russian => true,
        Language::Spanish => true,
        Language::Swedish => true,
        _ => false,
    }
}

/// The base tokenizer that goes by `name`, if there is one.
pub open spec fn base_stage(name: Seq<char>) -> Option<Stage> {
    if name == "simple"@ {
        Some(Stage::Simple)
    } else if name == "whitespace"@ {
        Some(Stage::Whitespace)
    } else if name == "raw"@ {
        Some(Stage::Raw)
    } else {
        None
    }
}

/// What is reported of a base tokenizer that goes by an unknown name.
pub open spec fn unknown_base_text(name: Seq<char>) -> Seq<char> {
    "unknown base tokenizer "@ + name
}

/// What is reported of a language without a list of stop words.
pub open spec fn no_stop_words_text(language: Language) -> Seq<char> {
    "removing stop words for language "@ + language_name(language) + " is not supported yet"@
}

/// A JSON string that holds `text` between its quotes as it stands.
pub open spec fn quoted(text: Seq<char>) -> Seq<char> {
    "\""@ + text + "\""@
}

/// The stages `stages`, followed by `stage` where it is wanted.
pub open spec fn stage_if(stages: Seq<Stage>, wanted: bool, stage: Stage) -> Seq<Stage> {
    if wanted {
        stages.push(stage)
    } else {
        stages
    }
}

/// How to analyze text: a base tokenizer and the filters behind it.
#[derive(Debug, Clone)]
pub struct TokenizerConfig {
    /// The base tokenizer: `simple` splits on whitespace and punctuation,
    /// `whitespace` on whitespace, `raw` not at all.
    pub base_tokenizer: String,
    /// The language of stemming and stop words.
    pub language: Language,
    /// Tokens of this many bytes or more are removed; `None` keeps all.
    pub max_token_length: Option<usize>,
    /// Whether tokens are lower-cased.
    pub lower_case: bool,
    /// Whether tokens are reduced to their stems.
    pub stem: bool,
    /// Whether stop words are removed.
    pub remove_stop_words: bool,
    /// Whether letters outside ASCII are folded to ASCII.
    pub ascii_folding: bool,
}

impl Default for TokenizerConfig {
    /// The `simple` tokenizer for English, with the settings of `new`.
    fn default() -> (config: Self)
        ensures
            config.base_tokenizer@ == "simple"@,
            config.language == Language::English,
            config.max_token_length == Some(40usize),
            config.lower_case,
            !config.stem,
            !config.remove_stop_words,
            !config.ascii_folding,
    {
        TokenizerConfig::new(String::from_str("simple"), Language::English)
    }
}

impl TokenizerConfig {
    /// A configuration of `base_tokenizer` for `language`: tokens of 40 bytes
    /// or more are removed, the others lower-cased, and nothing else is done.
    pub fn new(base_tokenizer: String, language: Language) -> (config: Self)
        ensures
            config == (TokenizerConfig {
                base_tokenizer,
                language,
                max_token_length: Some(40usize),
                lower_case: true,
                stem: false,
                remove_stop_words: false,
                ascii_folding: false,
            }),
    {
        TokenizerConfig {
            base_tokenizer,
            language,
            max_token_length: Some(40),
            lower_case: true,
            stem: false,
            remove_stop_words: false,
            ascii_folding: false,
        }
    }

    /// The stages `base` followed by the filters that the configuration asks
    /// for, in the order in which they are applied.
    pub open spec fn with_filters(&self, base: Seq<Stage>) -> Seq<Stage> {
        let bounded = match self.max_token_length {
            Some(limit) => base.push(Stage::RemoveLong { limit }),
            None => base,
        };
        let lowered = stage_if(bounded, self.lower_case, Stage::LowerCase);
        let stemmed = stage_if(lowered, self.stem, Stage::Stem { language: self.language });
        let stopped = stage_if(
            stemmed,
            self.remove_stop_words,
            Stage::StopWords { language: self.language },
        );
        stage_if(stopped, self.ascii_folding, Stage::AsciiFolding)
    }

    /// The stages of the analyzer that the configuration describes, or what
    /// is wrong with it: first an unknown base tokenizer, then stop words
    /// asked for in a language that has none.
    pub open spec fn plan(&self) -> Result<Seq<Stage>, Seq<char>> {
        match base_stage(self.base_tokenizer@) {
            None => Err(unknown_base_text(self.base_tokenizer@)),
            Some(base) => if self.remove_stop_words && !has_stop_words(self.language) {
                Err(no_stop_words_text(self.language))
            } else {
                Ok(self.with_filters(seq![base]))
            },
        }
    }

    /// Sets the base tokenizer.
    pub fn base_tokenizer(self, base_tokenizer: String) -> (config: Self)
        ensures
            config == (TokenizerConfig { base_tokenizer, ..self }),
    {
        let mut config = self;
        config.base_tokenizer = base_tokenizer;
        config
    }

    /// Sets the language.
    pub fn with_language(self, language: Language) -> (config: Self)
        ensures
            config == (TokenizerConfig { language, ..self }),
    {
        let mut config = self;
        config.language = language;
        config
    }

    /// Sets the language by its name, such as `English`. The name is read as
    /// the JSON string that holds it between quotes, so each of the names of
    /// `language_name` sets its language.
    pub fn language(self, language: &str) -> (changed: Result<Self, TokenizerError>)
        ensures
            match json_language(quoted(language@)) {
                Some(read) => changed == Ok::<Self, TokenizerError>(
                    TokenizerConfig { language: read, ..self },
                ),
                None => changed matches Err(TokenizerError::Json { .. }),
            },
            forall|known: Language|
                language@ == #[trigger] language_name(known) ==> changed == Ok::<
                    Self,
                    TokenizerError,
                >(TokenizerConfig { language: known, ..self }),
    {
        let json = String::from_str("\"").concat(language).concat("\"");
        match language_from_json(json.as_str()) {
            Ok(read) => Ok(self.with_language(read)),
            Err(message) => Err(TokenizerError::Json { message }),
        }
    }

    /// Sets the length from which on tokens are removed.
    pub fn max_token_length(self, max_token_length: Option<usize>) -> (config: Self)
        ensures
            config == (TokenizerConfig { max_token_length, ..self }),
    {
        let mut config = self;
        config.max_token_length = max_token_length;
        config
    }

    /// Sets whether tokens are lower-cased.
    pub fn lower_case(self, lower_case: bool) -> (config: Self)
        ensures
            config == (TokenizerConfig { lower_case, ..self }),
    {
        let mut config = self;
        config.lower_case = lower_case;
        config
    }

    /// Sets whether tokens are reduced to their stems.
    pub fn stem(self, stem: bool) -> (config: Self)
        ensures
            config == (TokenizerConfig { stem, ..self }),
    {
        let mut config = self;
        config.stem = stem;
        config
    }

    /// Sets whether stop words are removed.
    pub fn remove_stop_words(self, remove_stop_words: bool) -> (config: Self)
        ensures
            config == (TokenizerConfig { remove_stop_words, ..self }),
    {
        let mut config = self;
        config.remove_stop_words = remove_stop_words;
        config
    }

    /// Sets whether letters outside ASCII are folded to ASCII.
    pub fn ascii_folding(self, ascii_folding: bool) -> (config: Self)
        ensures
            config == (TokenizerConfig { ascii_folding, ..self }),
    {
        let mut config = self;
        config.ascii_folding = ascii_folding;
        config
    }

    /// The stages of the analyzer that the configuration describes, base
    /// first, or what is wrong with the configuration.
    pub fn stages(&self) -> (stages: Result<Vec<Stage>, TokenizerError>)
        ensures
            match self.plan() {
                Ok(planned) => stages matches Ok(found) && found@ == planned,
                Err(text) => stages matches Err(TokenizerError::InvalidInput { message })
                    && message@ == text,
            },
    {
        let mut stages: Vec<Stage> = Vec::new();
        let name = self.base_tokenizer.as_str();
        if same_text(name, "simple") {
            stages.push(Stage::Simple);
        } else if same_text(name, "whitespace") {
            stages.push(Stage::Whitespace);
        } else if same_text(name, "raw") {
            stages.push(Stage::Raw);
        } else {
            return Err(unknown_base(name));
        }
        if self.remove_stop_words && !stop_words_known(self.language) {
            return Err(no_stop_words(self.language));
        }
        if let Some(limit) = self.max_token_length {
            stages.push(Stage::RemoveLong { limit });
        }
        if self.lower_case {
            stages.push(Stage::LowerCase);
        }
        if self.stem {
            stages.push(Stage::Stem { language: self.language });
        }
        if self.remove_stop_words {
            stages.push(Stage::StopWords { language: self.language });
        }
        if self.ascii_folding {
            stages.push(Stage::AsciiFolding);
        }
        Ok(stages)
    }

    /// Builds the text analyzer that the configuration describes.
    ///
    /// The base tokenizer comes first. Behind it stand, each only where the
    /// configuration asks for it, the filter that removes long tokens, the
    /// lower-caser, the stemmer, the stop word filter and the ASCII folding.
    pub fn build(&self) -> (built: Result<TextAnalyzer, TokenizerError>)
        ensures
            match self.plan() {
                Ok(planned) => built matches Ok(analyzer) && analyzer_stages(analyzer) == planned,
                Err(text) => built matches Err(TokenizerError::InvalidInput { message })
                    && message@ == text,
            },
    {
        let mut builder = build_base_tokenizer_builder(self.base_tokenizer.as_str())?;
        if let Some(max_token_length) = self.max_token_length {
            builder = with_remove_long(builder, max_token_length);
        }
        if self.lower_case {
            builder = with_lower_caser(builder);
        }
        if self.stem {
            builder = with_stemmer(builder, self.language);
        }
        if self.remove_stop_words {
            match stop_word_filter(self.language) {
                Some(filter) => {
                    builder = with_stop_words(builder, filter);
                },
                None => {
                    return Err(no_stop_words(self.language));
                },
            }
        }
        if self.ascii_folding {
            builder = with_ascii_folding(builder);
        }
        Ok(finish(builder))
    }
}

fn unknown_base(name: &str) -> (error: TokenizerError)
    ensures
        error matches TokenizerError::InvalidInput { message } && message@ == unknown_base_text(
            name@,
        ),
{
    TokenizerError::InvalidInput {
        message: String::from_str("unknown base tokenizer ").concat(name),
    }
}

fn no_stop_words(language: Language) -> (error: TokenizerError)
    ensures
        error matches TokenizerError::InvalidInput { message } && message@ == no_stop_words_text(
            language,
        ),
{
    TokenizerError::InvalidInput {
        message: String::from_str("removing stop words for language ").concat(
            name_of_language(language),
        ).concat(" is not supported yet"),
    }
}

/// Starts the pipeline of the base tokenizer that goes by `name`.
fn build_base_tokenizer_builder(name: &str) -> (started: Result<Pipeline, TokenizerError>)
    ensures
        match base_stage(name@) {
            Some(base) => started matches Ok(pipeline) && pipeline_stages(pipeline) == seq![base],
            None => started matches Err(TokenizerError::InvalidInput { message }) && message@
                == unknown_base_text(name@),
        },
{
    if same_text(name, "simple") {
        Ok(simple_pipeline())
    } else if same_text(name, "whitespace") {
        Ok(whitespace_pipeline())
    } else if same_text(name, "raw") {
        Ok(raw_pipeline())
    } else {
        Err(unknown_base(name))
    }
}

} // verus!
