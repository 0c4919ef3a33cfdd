//! Text analysis: tokenizers, token filters, and the analyzers made of
//! them. These are descriptions; the engine does the analysis.

use crate::error::{about, bare, Error, ErrorKind, ErrorView};
use crate::text::{copy_texts, lowercase_of, same_text, text_views, to_lowercase};
use vstd::prelude::*;

verus! {

/// A way to cut a text into tokens.
#[derive(Debug, Clone, PartialEq, Eq)]
pub enum TokenizerType {
    /// The whole text is one token.
    Raw,
    /// Cuts at what is neither a letter nor a digit.
    Simple,
    /// Cuts at white space.
    Whitespace,
    /// The tokens are the matches of a pattern.
    Regex { pattern: String },
    /// The tokens are the stretches of `min_gram` to `max_gram` characters,
    /// from the start of the text only if `prefix_only` is set.
    Ngram { min_gram: u32, max_gram: u32, prefix_only: bool },
    /// The tokens are the ancestors of a facet.
    Facet,
}

/// What a `TokenizerType` stands for.
pub enum TokenizerView {
    Raw,
    Simple,
    Whitespace,
    Regex { pattern: Seq<char> },
    Ngram { min_gram: u32, max_gram: u32, prefix_only: bool },
    Facet,
}

impl View for TokenizerType {
    type V = TokenizerView;

    open spec fn view(&self) -> TokenizerView {
        match self {
            TokenizerType::Raw => TokenizerView::Raw,
            TokenizerType::Simple => TokenizerView::Simple,
            TokenizerType::Whitespace => TokenizerView::Whitespace,
            TokenizerType::Regex { pattern } => TokenizerView::Regex { pattern: pattern@ },
            TokenizerType::Ngram { min_gram, max_gram, prefix_only } => TokenizerView::Ngram {
                min_gram: *min_gram,
                max_gram: *max_gram,
                prefix_only: *prefix_only,
            },
            TokenizerType::Facet => TokenizerView::Facet,
        }
    }
}

/// A tokenizer.
#[derive(Debug, Clone, PartialEq, Eq)]
pub struct Tokenizer {
    pub inner: TokenizerType,
}

/// The built-in tokenizers.
#[derive(Debug, Clone, Copy, PartialEq, Eq)]
pub struct TokenizerStatic {}

impl TokenizerStatic {
    pub fn simple() -> (t: Tokenizer)
        ensures
            t.inner@ == TokenizerView::Simple,
    {
        Tokenizer { inner: TokenizerType::Simple }
    }

    pub fn whitespace() -> (t: Tokenizer)
        ensures
            t.inner@ == TokenizerView::Whitespace,
    {
        Tokenizer { inner: TokenizerType::Whitespace }
    }

    pub fn raw() -> (t: Tokenizer)
        ensures
            t.inner@ == TokenizerView::Raw,
    {
        Tokenizer { inner: TokenizerType::Raw }
    }

    pub fn facet() -> (t: Tokenizer)
        ensures
            t.inner@ == TokenizerView::Facet,
    {
        Tokenizer { inner: TokenizerType::Facet }
    }

    pub fn regex(pattern: String) -> (t: Tokenizer)
        ensures
            t.inner@ == (TokenizerView::Regex { pattern: pattern@ }),
    {
        Tokenizer { inner: TokenizerType::Regex { pattern } }
    }

    /// The n-gram tokenizer: from 2 characters where no minimum is given,
    /// to 3 where no maximum is given, anywhere in the text unless
    /// `prefix_only` is set.
    pub fn ngram(min_gram: Option<u32>, max_gram: Option<u32>, prefix_only: Option<bool>) -> (t:
        Tokenizer)
        ensures
            t.inner@ == (TokenizerView::Ngram {
                min_gram: match min_gram {
                    Some(n) => n,
                    None => 2,
                },
                max_gram: match max_gram {
                    Some(n) => n,
                    None => 3,
                },
                prefix_only: match prefix_only {
                    Some(b) => b,
                    None => false,
                },
            }),
    {
        Tokenizer {
            inner: TokenizerType::Ngram {
                min_gram: match min_gram {
                    Some(n) => n,
                    None => 2,
                },
                max_gram: match max_gram {
                    Some(n) => n,
                    None => 3,
                },
                prefix_only: match prefix_only {
                    Some(b) => b,
                    None => false,
                },
            },
        }
    }
}

/// A way to change or drop tokens. A language is given by its name.
#[derive(Debug, Clone, PartialEq, Eq)]
pub enum FilterType {
    AlphaNumOnly,
    AsciiFolding,
    LowerCaser,
    RemoveLong { length_limit: u32 },
    Stemmer { language: String },
    StopWord { language: String },
    CustomStopWord { stopwords: Vec<String> },
    SplitCompound { constituent_words: Vec<String> },
}

/// What a `FilterType` stands for.
pub enum FilterView {
    AlphaNumOnly,
    AsciiFolding,
    LowerCaser,
    RemoveLong { length_limit: u32 },
    Stemmer { language: Seq<char> },
    StopWord { language: Seq<char> },
    CustomStopWord { stopwords: Seq<Seq<char>> },
    SplitCompound { constituent_words: Seq<Seq<char>> },
}

impl View for FilterType {
    type V = FilterView;

    open spec fn view(&self) -> FilterView {
        match self {
            FilterType::AlphaNumOnly => FilterView::AlphaNumOnly,
            FilterType::AsciiFolding => FilterView::AsciiFolding,
            FilterType::LowerCaser => FilterView::LowerCaser,
            FilterType::RemoveLong { length_limit } => FilterView::RemoveLong {
                length_limit: *length_limit,
            },
            FilterType::Stemmer { language } => FilterView::Stemmer { language: language@ },
            FilterType::StopWord { language } => FilterView::StopWord { language: language@ },
            FilterType::CustomStopWord { stopwords } => FilterView::CustomStopWord {
                stopwords: text_views(stopwords@),
            },
            FilterType::SplitCompound { constituent_words } => FilterView::SplitCompound {
                constituent_words: text_views(constituent_words@),
            },
        }
    }
}

/// A token filter.
#[derive(Debug, Clone, PartialEq, Eq)]
pub struct Filter {
    pub inner: FilterType,
}

/// The built-in token filters.
#[derive(Debug, Clone, Copy, PartialEq, Eq)]
pub struct FilterStatic {}

impl FilterStatic {
    /// Drops the tokens that hold anything but letters and digits.
    pub fn alphanum_only() -> (f: Filter)
        ensures
            f.inner@ == FilterView::AlphaNumOnly,
    {
        Filter { inner: FilterType::AlphaNumOnly }
    }

    /// Replaces letters outside ASCII by their ASCII equivalents.
    pub fn ascii_fold() -> (f: Filter)
        ensures
            f.inner@ == FilterView::AsciiFolding,
    {
        Filter { inner: FilterType::AsciiFolding }
    }

    pub fn lowercase() -> (f: Filter)
        ensures
            f.inner@ == FilterView::LowerCaser,
    {
        Filter { inner: FilterType::LowerCaser }
    }

    /// Drops the tokens that are longer than the limit.
    pub fn remove_long(length_limit: u32) -> (f: Filter)
        ensures
            f.inner@ == (FilterView::RemoveLong { length_limit }),
    {
        Filter { inner: FilterType::RemoveLong { length_limit } }
    }

    pub fn stemmer(language: String) -> (f: Filter)
        ensures
            f.inner@ == (FilterView::Stemmer { language: language@ }),
    {
        Filter { inner: FilterType::Stemmer { language } }
    }

    /// Drops the stop words of a language.
    pub fn stopword(language: String) -> (f: Filter)
        ensures
            f.inner@ == (FilterView::StopWord { language: language@ }),
    {
        Filter { inner: FilterType::StopWord { language } }
    }

    /// Drops the given words.
    pub fn custom_stopword(stopwords: Vec<String>) -> (f: Filter)
        ensures
            f.inner@ == (FilterView::CustomStopWord { stopwords: text_views(stopwords@) }),
    {
        Filter { inner: FilterType::CustomStopWord { stopwords } }
    }

    /// Splits the words that are made of the given words.
    pub fn split_compound(constituent_words: Vec<String>) -> (f: Filter)
        ensures
            f.inner@ == (FilterView::SplitCompound {
                constituent_words: text_views(constituent_words@),
            }),
    {
        Filter { inner: FilterType::SplitCompound { constituent_words } }
    }
}

/// The languages that have a stemmer.
#[derive(Clone, Copy, Debug, PartialEq, Eq, Structural)]
pub enum Language {
    Arabic,
    Danish,
    Dutch,
    English,
    Finnish,
    French,
    German,
    Greek,
    Hungarian,
    Italian,
    Norwegian,
    Portuguese,
    Romanian,
    Russian,
    Spanish,
    Swedish,
    Tamil,
    Turkish,
}

/// The language of a name in lower case.
pub open spec fn language_named(lowered: Seq<char>) -> Option<Language> {
    if lowered == "arabic"@ {
        Some(Language::Arabic)
    } else if lowered == "danish"@ {
        Some(Language::Danish)
    } else if lowered == "dutch"@ {
        Some(Language::Dutch)
    } else if lowered == "english"@ {
        Some(Language::English)
    } else if lowered == "finnish"@ {
        Some(Language::Finnish)
    } else if lowered == "french"@ {
        Some(Language::French)
    } else if lowered == "german"@ {
        Some(Language::German)
    } else if lowered == "greek"@ {
        Some(Language::Greek)
    } else if lowered == "hungarian"@ {
        Some(Language::Hungarian)
    } else if lowered == "italian"@ {
        Some(Language::Italian)
    } else if lowered == "norwegian"@ {
        Some(Language::Norwegian)
    } else if lowered == "portuguese"@ {
        Some(Language::Portuguese)
    } else if lowered == "romanian"@ {
        Some(Language::Romanian)
    } else if lowered == "russian"@ {
        Some(Language::Russian)
    } else if lowered == "spanish"@ {
        Some(Language::Spanish)
    } else if lowered == "swedish"@ {
        Some(Language::Swedish)
    } else if lowered == "tamil"@ {
        Some(Language::Tamil)
    } else if lowered == "turkish"@ {
        Some(Language::Turkish)
    } else {
        None
    }
}

/// The language of a name, whatever its case.
pub fn parse_language(lang: &str) -> (r: Result<Language, Error>)
    ensures
        match language_named(lowercase_of(lang@)) {
            Some(l) => r == Ok::<Language, Error>(l),
            None => r matches Err(e) && e@ == about(ErrorKind::UnsupportedLanguage, lang@),
        },
{
    let lowered = to_lowercase(lang);
    let name = lowered.as_str();
    if same_text(name, "arabic") {
        Ok(Language::Arabic)
    } else if same_text(name, "danish") {
        Ok(Language::Danish)
    } else if same_text(name, "dutch") {
        Ok(Language::Dutch)
    } else if same_text(name, "english") {
        Ok(Language::English)
    } else if same_text(name, "finnish") {
        Ok(Language::Finnish)
    } else if same_text(name, "french") {
        Ok(Language::French)
    } else if same_text(name, "german") {
        Ok(Language::German)
    } else if same_text(name, "greek") {
        Ok(Language::Greek)
    } else if same_text(name, "hungarian") {
        Ok(Language::Hungarian)
    } else if same_text(name, "italian") {
        Ok(Language::Italian)
    } else if same_text(name, "norwegian") {
        Ok(Language::Norwegian)
    } else if same_text(name, "portuguese") {
        Ok(Language::Portuguese)
    } else if same_text(name, "romanian") {
        Ok(Language::Romanian)
    } else if same_text(name, "russian") {
        Ok(Language::Russian)
    } else if same_text(name, "spanish") {
        Ok(Language::Spanish)
    } else if same_text(name, "swedish") {
        Ok(Language::Swedish)
    } else if same_text(name, "tamil") {
        Ok(Language::Tamil)
    } else if same_text(name, "turkish") {
        Ok(Language::Turkish)
    } else {
        Err(Error::new(ErrorKind::UnsupportedLanguage, lang))
    }
}

/// The name of a language as the engine writes it.
pub open spec fn language_name(language: Language) -> Seq<char> {
    match language {
        Language::Arabic => "Arabic"@,
        Language::Danish => "Danish"@,
        Language::Dutch => "Dutch"@,
        Language::English => "English"@,
        Language::Finnish => "Finnish"@,
        Language::French => "French"@,
        Language::German => "German"@,
        Language::Greek => "Greek"@,
        Language::Hungarian => "Hungarian"@,
        Language::Italian => "Italian"@,
        Language::Norwegian => "Norwegian"@,
        Language::Portuguese => "Portuguese"@,
        Language::Romanian => "Romanian"@,
        Language::Russian => "Russian"@,
        Language::Spanish => "Spanish"@,
        Language::Swedish => "Swedish"@,
        Language::Tamil => "Tamil"@,
        Language::Turkish => "Turkish"@,
    }
}

/// The name of a language as the engine writes it.
fn language_name_of(language: Language) -> (r: &'static str)
    ensures
        r@ == language_name(language),
{
    match language {
        Language::Arabic => "Arabic",
        Language::Danish => "Danish",
        Language::Dutch => "Dutch",
        Language::English => "English",
        Language::Finnish => "Finnish",
        Language::French => "French",
        Language::German => "German",
        Language::Greek => "Greek",
        Language::Hungarian => "Hungarian",
        Language::Italian => "Italian",
        Language::Norwegian => "Norwegian",
        Language::Portuguese => "Portuguese",
        Language::Romanian => "Romanian",
        Language::Russian => "Russian",
        Language::Spanish => "Spanish",
        Language::Swedish => "Swedish",
        Language::Tamil => "Tamil",
        Language::Turkish => "Turkish",
    }
}

/// Whether the engine has a list of stop words for the language that it
/// writes under the given name: it has one for thirteen languages.
pub open spec fn stop_words_listed(name: Seq<char>) -> bool {
    ||| name == "Danish"@
    ||| name == "Dutch"@
    ||| name == "English"@
    ||| name == "Finnish"@
    ||| name == "French"@
    ||| name == "German"@
    ||| name == "Hungarian"@
    ||| name == "Italian"@
    ||| name == "Norwegian"@
    ||| name == "Portuguese"@
    ||| name == "Russian"@
    ||| name == "Spanish"@
    ||| name == "Swedish"@
}

/// `tantivy::tokenizer::StopWordFilter::new`, on the language that the
/// engine reads from the name: it gives a filter exactly for Danish, Dutch,
/// English, Finnish, French, German, Hungarian, Italian, Norwegian,
/// Portuguese, Russian, Spanish and Swedish.
#[verifier::external_body]
fn engine_lists_stop_words(name: &str) -> (r: bool)
    ensures
        r == stop_words_listed(name@),
{
    let read = serde_json::from_value(serde_json::Value::String(name.to_string()));
    match read {
        Ok(language) => tantivy::tokenizer::StopWordFilter::new(language).is_some(),
        Err(_) => false,
    }
}

/// Whether there is a list of stop words for a language: there is one for
/// every language but Arabic, Greek, Romanian, Tamil and Turkish.
pub open spec fn spec_has_stop_words(language: Language) -> bool {
    match language {
        Language::Arabic
        | Language::Greek
        | Language::Romanian
        | Language::Tamil
        | Language::Turkish => false,
        _ => true,
    }
}

/// The languages whose names are listed are the languages that have stop
/// words.
pub proof fn lemma_listed_names(language: Language)
    ensures
        stop_words_listed(language_name(language)) == spec_has_stop_words(language),
{
    reveal_strlit("Arabic");
    reveal_strlit("Danish");
    reveal_strlit("Dutch");
    reveal_strlit("English");
    reveal_strlit("Finnish");
    reveal_strlit("French");
    reveal_strlit("German");
    reveal_strlit("Greek");
    reveal_strlit("Hungarian");
    reveal_strlit("Italian");
    reveal_strlit("Norwegian");
    reveal_strlit("Portuguese");
    reveal_strlit("Romanian");
    reveal_strlit("Russian");
    reveal_strlit("Spanish");
    reveal_strlit("Swedish");
    reveal_strlit("Tamil");
    reveal_strlit("Turkish");
    assert("Arabic"@[0] == 'A');
    assert("Danish"@[0] == 'D');
    assert("Dutch"@[0] == 'D');
    assert("English"@[0] == 'E');
    assert("Finnish"@[0] == 'F');
    assert("French"@[0] == 'F');
    assert("German"@[1] == 'e');
    assert("Greek"@[1] == 'r');
    assert("Hungarian"@[0] == 'H');
    assert("Italian"@[0] == 'I');
    assert("Norwegian"@[0] == 'N');
    assert("Portuguese"@[0] == 'P');
    assert("Romanian"@[1] == 'o');
    assert("Russian"@[1] == 'u');
    assert("Spanish"@[0] == 'S');
    assert("Swedish"@[0] == 'S');
    assert("Tamil"@[0] == 'T');
    assert("Turkish"@[0] == 'T');
    assert("German"@[0] == 'G');
    assert("Greek"@[0] == 'G');
    assert("Romanian"@[0] == 'R');
    assert("Russian"@[0] == 'R');
}

/// Whether there is a list of stop words for a language.
#[verifier::when_used_as_spec(spec_has_stop_words)]
pub fn has_stop_words(language: Language) -> (r: bool)
    ensures
        r == spec_has_stop_words(language),
{
    proof {
        lemma_listed_names(language);
    }
    engine_lists_stop_words(language_name_of(language))
}

/// A token filter of an analyzer: a built-in filter with its language
/// known and its limit as a length.
#[derive(Debug, Clone, PartialEq, Eq)]
pub enum AnalyzerFilter {
    AlphaNumOnly,
    AsciiFolding,
    LowerCaser,
    RemoveLong { length_limit: usize },
    Stemmer { language: Language },
    StopWord { language: Language },
    CustomStopWord { stopwords: Vec<String> },
    SplitCompound { constituent_words: Vec<String> },
}

/// What an `AnalyzerFilter` stands for.
pub enum AnalyzerFilterView {
    AlphaNumOnly,
    AsciiFolding,
    LowerCaser,
    RemoveLong { length_limit: usize },
    Stemmer { language: Language },
    StopWord { language: Language },
    CustomStopWord { stopwords: Seq<Seq<char>> },
    SplitCompound { constituent_words: Seq<Seq<char>> },
}

impl View for AnalyzerFilter {
    type V = AnalyzerFilterView;

    open spec fn view(&self) -> AnalyzerFilterView {
        match self {
            AnalyzerFilter::AlphaNumOnly => AnalyzerFilterView::AlphaNumOnly,
            AnalyzerFilter::AsciiFolding => AnalyzerFilterView::AsciiFolding,
            AnalyzerFilter::LowerCaser => AnalyzerFilterView::LowerCaser,
            AnalyzerFilter::RemoveLong { length_limit } => AnalyzerFilterView::RemoveLong {
                length_limit: *length_limit,
            },
            AnalyzerFilter::Stemmer { language } => AnalyzerFilterView::Stemmer {
                language: *language,
            },
            AnalyzerFilter::StopWord { language } => AnalyzerFilterView::StopWord {
                language: *language,
            },
            AnalyzerFilter::CustomStopWord { stopwords } => AnalyzerFilterView::CustomStopWord {
                stopwords: text_views(stopwords@),
            },
            AnalyzerFilter::SplitCompound {
                constituent_words,
            } => AnalyzerFilterView::SplitCompound {
                constituent_words: text_views(constituent_words@),
            },
        }
    }
}

/// The filter of an analyzer that a built-in filter stands for. The
/// language of a stemmer must be known; that of a stop word filter must be
/// known and have a list of stop words.
pub open spec fn resolved_filter(f: FilterView) -> Result<AnalyzerFilterView, ErrorView> {
    match f {
        FilterView::AlphaNumOnly => Ok(AnalyzerFilterView::AlphaNumOnly),
        FilterView::AsciiFolding => Ok(AnalyzerFilterView::AsciiFolding),
        FilterView::LowerCaser => Ok(AnalyzerFilterView::LowerCaser),
        FilterView::RemoveLong { length_limit } => Ok(
            AnalyzerFilterView::RemoveLong { length_limit: length_limit as usize },
        ),
        FilterView::Stemmer { language } => match language_named(lowercase_of(language)) {
            Some(l) => Ok(AnalyzerFilterView::Stemmer { language: l }),
            None => Err(about(ErrorKind::UnsupportedLanguage, language)),
        },
        FilterView::StopWord { language } => match language_named(lowercase_of(language)) {
            Some(l) => if spec_has_stop_words(l) {
                Ok(AnalyzerFilterView::StopWord { language: l })
            } else {
                Err(about(ErrorKind::NoStopWords, language))
            },
            None => Err(about(ErrorKind::UnsupportedLanguage, language)),
        },
        FilterView::CustomStopWord { stopwords } => Ok(
            AnalyzerFilterView::CustomStopWord { stopwords },
        ),
        FilterView::SplitCompound { constituent_words } => Ok(
            AnalyzerFilterView::SplitCompound { constituent_words },
        ),
    }
}

/// The filter of an analyzer that a built-in filter stands for.
pub fn resolve_filter(filter: &Filter) -> (r: Result<AnalyzerFilter, Error>)
    ensures
        match resolved_filter(filter.inner@) {
            Ok(f) => r matches Ok(out) && out@ == f,
            Err(e) => r matches Err(err) && err@ == e,
        },
{
    match &filter.inner {
        FilterType::AlphaNumOnly => Ok(AnalyzerFilter::AlphaNumOnly),
        FilterType::AsciiFolding => Ok(AnalyzerFilter::AsciiFolding),
        FilterType::LowerCaser => Ok(AnalyzerFilter::LowerCaser),
        FilterType::RemoveLong { length_limit } => Ok(
            AnalyzerFilter::RemoveLong { length_limit: *length_limit as usize },
        ),
        FilterType::Stemmer { language } => match parse_language(language.as_str()) {
            Ok(l) => Ok(AnalyzerFilter::Stemmer { language: l }),
            Err(e) => Err(e),
        },
        FilterType::StopWord { language } => match parse_language(language.as_str()) {
            Ok(l) => if has_stop_words(l) {
                Ok(AnalyzerFilter::StopWord { language: l })
            } else {
                Err(Error::new(ErrorKind::NoStopWords, language.as_str()))
            },
            Err(e) => Err(e),
        },
        FilterType::CustomStopWord { stopwords } => {
            let copy = copy_texts(stopwords);
            proof {
                assert(text_views(copy@) =~= text_views(stopwords@));
            }
            Ok(AnalyzerFilter::CustomStopWord { stopwords: copy })
        },
        FilterType::SplitCompound { constituent_words } => {
            let copy = copy_texts(constituent_words);
            proof {
                assert(text_views(copy@) =~= text_views(constituent_words@));
            }
            Ok(AnalyzerFilter::SplitCompound { constituent_words: copy })
        },
    }
}

/// Whether the engine takes a pattern for a regex tokenizer.
pub uninterp spec fn tokenizer_pattern_accepted(pattern: Seq<char>) -> bool;

/// `tantivy::tokenizer::RegexTokenizer::new`: whether it succeeds is a
/// function of the pattern alone.
#[verifier::external_body]
fn engine_takes_pattern(pattern: &str) -> (r: bool)
    ensures
        r == tokenizer_pattern_accepted(pattern@),
{
    tantivy::tokenizer::RegexTokenizer::new(pattern).is_ok()
}

/// `tantivy::tokenizer::NgramTokenizer::new`: it succeeds exactly if
/// `min_gram` is greater than 0 and not greater than `max_gram`.
#[verifier::external_body]
fn engine_takes_ngram(min_gram: usize, max_gram: usize, prefix_only: bool) -> (r: bool)
    ensures
        r == (0 < min_gram <= max_gram),
{
    tantivy::tokenizer::NgramTokenizer::new(min_gram, max_gram, prefix_only).is_ok()
}

/// Whether a tokenizer is one the engine can make.
pub open spec fn tokenizer_refusal(t: TokenizerView) -> Option<ErrorView> {
    match t {
        TokenizerView::Regex { pattern } => if tokenizer_pattern_accepted(pattern) {
            None
        } else {
            Some(about(ErrorKind::InvalidTokenizerPattern, pattern))
        },
        TokenizerView::Ngram { min_gram, max_gram, prefix_only } => if 0 < min_gram
            <= max_gram {
            None
        } else {
            Some(bare(ErrorKind::InvalidNgramRange))
        },
        _ => None,
    }
}

/// An analyzer: a tokenizer, and the filters that its tokens pass through,
/// in their order.
#[derive(Debug, Clone, PartialEq, Eq)]
pub struct TextAnalyzer {
    pub tokenizer: TokenizerType,
    pub filters: Vec<AnalyzerFilter>,
}

/// What a `TextAnalyzer` stands for.
pub struct TextAnalyzerView {
    pub tokenizer: TokenizerView,
    pub filters: Seq<AnalyzerFilterView>,
}

/// The views of a list of filters.
pub open spec fn filter_views(filters: Seq<AnalyzerFilter>) -> Seq<AnalyzerFilterView> {
    Seq::new(filters.len(), |i: int| filters[i]@)
}

impl View for TextAnalyzer {
    type V = TextAnalyzerView;

    open spec fn view(&self) -> TextAnalyzerView {
        TextAnalyzerView { tokenizer: self.tokenizer@, filters: filter_views(self.filters@) }
    }
}

/// A copy of a tokenizer.
fn copy_tokenizer(t: &TokenizerType) -> (r: TokenizerType)
    ensures
        r@ == t@,
{
    match t {
        TokenizerType::Raw => TokenizerType::Raw,
        TokenizerType::Simple => TokenizerType::Simple,
        TokenizerType::Whitespace => TokenizerType::Whitespace,
        TokenizerType::Regex { pattern } => TokenizerType::Regex { pattern: pattern.clone() },
        TokenizerType::Ngram { min_gram, max_gram, prefix_only } => TokenizerType::Ngram {
            min_gram: *min_gram,
            max_gram: *max_gram,
            prefix_only: *prefix_only,
        },
        TokenizerType::Facet => TokenizerType::Facet,
    }
}

/// An analyzer in the making. Adding a filter hands the work on to a new
/// builder and leaves this one consumed; so does building the analyzer.
#[derive(Debug)]
pub struct TextAnalyzerBuilder {
    parts: Option<TextAnalyzer>,
}

impl TextAnalyzerBuilder {
    /// The analyzer so far, or `None` once the builder is consumed.
    pub closed spec fn pending(&self) -> Option<TextAnalyzerView> {
        match self.parts {
            Some(a) => Some(a@),
            None => None,
        }
    }

    /// A builder of an analyzer with the given tokenizer and no filter.
    pub fn new(tokenizer: &Tokenizer) -> (r: Result<TextAnalyzerBuilder, Error>)
        ensures
            match tokenizer_refusal(tokenizer.inner@) {
                Some(e) => r matches Err(err) && err@ == e,
                None => r matches Ok(b) && b.pending() == Some(
                    TextAnalyzerView { tokenizer: tokenizer.inner@, filters: Seq::empty() },
                ),
            },
    {
        match &tokenizer.inner {
            TokenizerType::Regex { pattern } => {
                if !engine_takes_pattern(pattern.as_str()) {
                    return Err(Error::new(ErrorKind::InvalidTokenizerPattern, pattern.as_str()));
                }
            },
            TokenizerType::Ngram { min_gram, max_gram, prefix_only } => {
                if !engine_takes_ngram(*min_gram as usize, *max_gram as usize, *prefix_only) {
                    return Err(Error::bare(ErrorKind::InvalidNgramRange));
                }
            },
            _ => {},
        }
        let filters: Vec<AnalyzerFilter> = Vec::new();
        proof {
            assert(filter_views(filters@) =~= Seq::empty());
        }
        Ok(
            TextAnalyzerBuilder {
                parts: Some(TextAnalyzer { tokenizer: copy_tokenizer(&tokenizer.inner), filters }),
            },
        )
    }

    /// A builder of the analyzer so far with one more filter. This builder
    /// is consumed, also where the filter is refused.
    pub fn filter(&mut self, filter: &Filter) -> (r: Result<TextAnalyzerBuilder, Error>)
        ensures
            final(self).pending() is None,
            match old(self).pending() {
                None => r matches Err(e) && e@ == bare(ErrorKind::AnalyzerBuilderConsumed),
                Some(a) => match resolved_filter(filter.inner@) {
                    Err(e) => r matches Err(err) && err@ == e,
                    Ok(f) => r matches Ok(b) && b.pending() == Some(
                        TextAnalyzerView { tokenizer: a.tokenizer, filters: a.filters.push(f) },
                    ),
                },
            },
    {
        let mut taken: Option<TextAnalyzer> = None;
        core::mem::swap(&mut self.parts, &mut taken);
        match taken {
            None => Err(Error::bare(ErrorKind::AnalyzerBuilderConsumed)),
            Some(analyzer) => match resolve_filter(filter) {
                Err(e) => Err(e),
                Ok(f) => {
                    let TextAnalyzer { tokenizer, mut filters } = analyzer;
                    proof {
                        assert(filter_views(filters@.push(f)) =~= filter_views(filters@).push(f@));
                    }
                    filters.push(f);
                    Ok(TextAnalyzerBuilder { parts: Some(TextAnalyzer { tokenizer, filters }) })
                },
            },
        }
    }

    /// The analyzer. This builder is consumed.
    pub fn build(&mut self) -> (r: Result<TextAnalyzer, Error>)
        ensures
            final(self).pending() is None,
            match old(self).pending() {
                None => r matches Err(e) && e@ == bare(ErrorKind::AnalyzerBuilderConsumed),
                Some(a) => r matches Ok(analyzer) && analyzer@ == a,
            },
    {
        let mut taken: Option<TextAnalyzer> = None;
        core::mem::swap(&mut self.parts, &mut taken);
        match taken {
            None => Err(Error::bare(ErrorKind::AnalyzerBuilderConsumed)),
            Some(analyzer) => Ok(analyzer),
        }
    }
}

/// The longest token that a stemming analyzer keeps.
pub const STEMMING_LENGTH_LIMIT: usize = 40;

/// The analyzer that stems a language: the simple tokenizer, tokens longer
/// than 40 characters dropped, lower case, then the stemmer.
pub open spec fn stemming_analyzer(language: Language) -> TextAnalyzerView {
    TextAnalyzerView {
        tokenizer: TokenizerView::Simple,
        filters: seq![
            AnalyzerFilterView::RemoveLong { length_limit: STEMMING_LENGTH_LIMIT },
            AnalyzerFilterView::LowerCaser,
            AnalyzerFilterView::Stemmer { language },
        ],
    }
}

/// The name under which the stemming analyzer of a language is
/// registered, for the languages that the index registers one for.
pub open spec fn stemming_name(language: Language) -> Seq<char> {
    match language {
        Language::Arabic => "ar_stem"@,
        Language::Danish => "da_stem"@,
        Language::Dutch => "nl_stem"@,
        Language::English => "en_stem"@,
        Language::Finnish => "fi_stem"@,
        Language::French => "fr_stem"@,
        Language::German => "de_stem"@,
        Language::Greek => "el_stem"@,
        Language::Hungarian => "hu_stem"@,
        Language::Italian => "it_stem"@,
        Language::Norwegian => "no_stem"@,
        Language::Portuguese => "pt_stem"@,
        Language::Romanian => "ro_stem"@,
        Language::Russian => "ru_stem"@,
        Language::Spanish => "es_stem"@,
        Language::Swedish => "sv_stem"@,
        Language::Tamil => "ta_stem"@,
        Language::Turkish => "tr_stem"@,
    }
}

/// The languages whose stemming analyzer an index registers when it is
/// opened: every language but English, whose analyzer the engine has.
pub open spec fn registered_languages() -> Seq<Language> {
    seq![
        Language::Arabic,
        Language::Danish,
        Language::Dutch,
        Language::Finnish,
        Language::French,
        Language::German,
        Language::Greek,
        Language::Hungarian,
        Language::Italian,
        Language::Norwegian,
        Language::Portuguese,
        Language::Romanian,
        Language::Russian,
        Language::Spanish,
        Language::Swedish,
        Language::Tamil,
        Language::Turkish,
    ]
}

/// The name under which the stemming analyzer of a language is registered.
fn stemming_name_of(language: Language) -> (r: &'static str)
    ensures
        r@ == stemming_name(language),
{
    match language {
        Language::Arabic => "ar_stem",
        Language::Danish => "da_stem",
        Language::Dutch => "nl_stem",
        Language::English => "en_stem",
        Language::Finnish => "fi_stem",
        Language::French => "fr_stem",
        Language::German => "de_stem",
        Language::Greek => "el_stem",
        Language::Hungarian => "hu_stem",
        Language::Italian => "it_stem",
        Language::Norwegian => "no_stem",
        Language::Portuguese => "pt_stem",
        Language::Romanian => "ro_stem",
        Language::Russian => "ru_stem",
        Language::Spanish => "es_stem",
        Language::Swedish => "sv_stem",
        Language::Tamil => "ta_stem",
        Language::Turkish => "tr_stem",
    }
}

/// The stemming analyzer of a language.
fn stemming_analyzer_of(language: Language) -> (r: TextAnalyzer)
    ensures
        r@ == stemming_analyzer(language),
{
    let mut filters: Vec<AnalyzerFilter> = Vec::new();
    filters.push(AnalyzerFilter::RemoveLong { length_limit: STEMMING_LENGTH_LIMIT });
    filters.push(AnalyzerFilter::LowerCaser);
    filters.push(AnalyzerFilter::Stemmer { language });
    proof {
        assert(filter_views(filters@) =~= stemming_analyzer(language).filters);
    }
    TextAnalyzer { tokenizer: TokenizerType::Simple, filters }
}

/// The analyzers that an index registers when it is opened, each under its
/// name.
pub fn register_custom_text_analyzers() -> (r: Vec<(String, TextAnalyzer)>)
    ensures
        r@.len() == registered_languages().len(),
        forall|i: int|
            0 <= i < r@.len() ==> (#[trigger] r@[i]).0@ == stemming_name(registered_languages()[i])
                && r@[i].1@ == stemming_analyzer(registered_languages()[i]),
{
    let mut languages: Vec<Language> = Vec::new();
    languages.push(Language::Arabic);
    languages.push(Language::Danish);
    languages.push(Language::Dutch);
    languages.push(Language::Finnish);
    languages.push(Language::French);
    languages.push(Language::German);
    languages.push(Language::Greek);
    languages.push(Language::Hungarian);
    languages.push(Language::Italian);
    languages.push(Language::Norwegian);
    languages.push(Language::Portuguese);
    languages.push(Language::Romanian);
    languages.push(Language::Russian);
    languages.push(Language::Spanish);
    languages.push(Language::Swedish);
    languages.push(Language::Tamil);
    languages.push(Language::Turkish);
    assert(languages@ =~= registered_languages());
    let mut out: Vec<(String, TextAnalyzer)> = Vec::new();
    let mut i: usize = 0;
    while i < languages.len()
        invariant
            i <= languages.len(),
            languages@ == registered_languages(),
            out@.len() == i,
            forall|j: int|
                0 <= j < i ==> (#[trigger] out@[j]).0@ == stemming_name(languages@[j]) && out@[j].1@
                    == stemming_analyzer(languages@[j]),
        decreases languages.len() - i,
    {
        let language = languages[i];
        out.push((stemming_name_of(language).to_owned(), stemming_analyzer_of(language)));
        i += 1;
    }
    out
}

} // verus!
