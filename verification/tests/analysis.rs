use tantivy_bridge::error::{ErrorKind, Status};
use tantivy_bridge::tokenizer::{
    has_stop_words, parse_language, register_custom_text_analyzers, resolve_filter,
    AnalyzerFilter, Filter, FilterStatic, FilterType, Language, TextAnalyzer,
    TextAnalyzerBuilder, Tokenizer, TokenizerStatic, TokenizerType,
};

const LANGUAGES: [(&str, Language, &str); 18] = [
    ("arabic", Language::Arabic, "ar_stem"),
    ("danish", Language::Danish, "da_stem"),
    ("dutch", Language::Dutch, "nl_stem"),
    ("english", Language::English, "en_stem"),
    ("finnish", Language::Finnish, "fi_stem"),
    ("french", Language::French, "fr_stem"),
    ("german", Language::German, "de_stem"),
    ("greek", Language::Greek, "el_stem"),
    ("hungarian", Language::Hungarian, "hu_stem"),
    ("italian", Language::Italian, "it_stem"),
    ("norwegian", Language::Norwegian, "no_stem"),
    ("portuguese", Language::Portuguese, "pt_stem"),
    ("romanian", Language::Romanian, "ro_stem"),
    ("russian", Language::Russian, "ru_stem"),
    ("spanish", Language::Spanish, "es_stem"),
    ("swedish", Language::Swedish, "sv_stem"),
    ("tamil", Language::Tamil, "ta_stem"),
    ("turkish", Language::Turkish, "tr_stem"),
];

fn engine_language(language: Language) -> tantivy::tokenizer::Language {
    match language {
        Language::Arabic => tantivy::tokenizer::Language::Arabic,
        Language::Danish => tantivy::tokenizer::Language::Danish,
        Language::Dutch => tantivy::tokenizer::Language::Dutch,
        Language::English => tantivy::tokenizer::Language::English,
        Language::Finnish => tantivy::tokenizer::Language::Finnish,
        Language::French => tantivy::tokenizer::Language::French,
        Language::German => tantivy::tokenizer::Language::German,
        Language::Greek => tantivy::tokenizer::Language::Greek,
        Language::Hungarian => tantivy::tokenizer::Language::Hungarian,
        Language::Italian => tantivy::tokenizer::Language::Italian,
        Language::Norwegian => tantivy::tokenizer::Language::Norwegian,
        Language::Portuguese => tantivy::tokenizer::Language::Portuguese,
        Language::Romanian => tantivy::tokenizer::Language::Romanian,
        Language::Russian => tantivy::tokenizer::Language::Russian,
        Language::Spanish => tantivy::tokenizer::Language::Spanish,
        Language::Swedish => tantivy::tokenizer::Language::Swedish,
        Language::Tamil => tantivy::tokenizer::Language::Tamil,
        Language::Turkish => tantivy::tokenizer::Language::Turkish,
    }
}

#[test]
fn built_in_tokenizers() {
    assert_eq!(TokenizerStatic::simple().inner, TokenizerType::Simple);
    assert_eq!(TokenizerStatic::whitespace().inner, TokenizerType::Whitespace);
    assert_eq!(TokenizerStatic::raw().inner, TokenizerType::Raw);
    assert_eq!(TokenizerStatic::facet().inner, TokenizerType::Facet);
    assert_eq!(
        TokenizerStatic::regex("\\w+".to_string()).inner,
        TokenizerType::Regex { pattern: "\\w+".to_string() }
    );
}

#[test]
fn ngram_has_its_defaults() {
    assert_eq!(
        TokenizerStatic::ngram(None, None, None).inner,
        TokenizerType::Ngram { min_gram: 2, max_gram: 3, prefix_only: false }
    );
    assert_eq!(
        TokenizerStatic::ngram(Some(1), Some(5), Some(true)).inner,
        TokenizerType::Ngram { min_gram: 1, max_gram: 5, prefix_only: true }
    );
}

#[test]
fn built_in_filters() {
    assert_eq!(FilterStatic::alphanum_only().inner, FilterType::AlphaNumOnly);
    assert_eq!(FilterStatic::ascii_fold().inner, FilterType::AsciiFolding);
    assert_eq!(FilterStatic::lowercase().inner, FilterType::LowerCaser);
    assert_eq!(
        FilterStatic::remove_long(40).inner,
        FilterType::RemoveLong { length_limit: 40 }
    );
    assert_eq!(
        FilterStatic::stemmer("english".to_string()).inner,
        FilterType::Stemmer { language: "english".to_string() }
    );
    assert_eq!(
        FilterStatic::stopword("french".to_string()).inner,
        FilterType::StopWord { language: "french".to_string() }
    );
    assert_eq!(
        FilterStatic::custom_stopword(vec!["the".to_string()]).inner,
        FilterType::CustomStopWord { stopwords: vec!["the".to_string()] }
    );
    assert_eq!(
        FilterStatic::split_compound(vec!["butter".to_string(), "fly".to_string()]).inner,
        FilterType::SplitCompound {
            constituent_words: vec!["butter".to_string(), "fly".to_string()]
        }
    );
}

#[test]
fn languages_are_read_whatever_their_case() {
    for (name, language, _) in LANGUAGES {
        assert_eq!(parse_language(name).unwrap(), language);
        assert_eq!(parse_language(&name.to_uppercase()).unwrap(), language);
    }
    assert_eq!(parse_language("English").unwrap(), Language::English);
}

#[test]
fn unknown_languages_are_refused() {
    for name in ["", "klingon", "eng", "english "] {
        let error = parse_language(name).unwrap_err();
        assert_eq!(error.kind, ErrorKind::UnsupportedLanguage);
        assert_eq!(error.subject, name);
        assert_eq!(error.status(), Status::GenericFailure);
    }
}

#[test]
fn stop_words_are_where_the_engine_has_them() {
    for (_, language, _) in LANGUAGES {
        assert_eq!(
            has_stop_words(language),
            tantivy::tokenizer::StopWordFilter::new(engine_language(language)).is_some(),
            "{language:?}"
        );
    }
}

#[test]
fn filters_are_resolved() {
    assert_eq!(
        resolve_filter(&FilterStatic::remove_long(7)).unwrap(),
        AnalyzerFilter::RemoveLong { length_limit: 7 }
    );
    assert_eq!(
        resolve_filter(&FilterStatic::stemmer("German".to_string())).unwrap(),
        AnalyzerFilter::Stemmer { language: Language::German }
    );
    assert_eq!(
        resolve_filter(&FilterStatic::stopword("english".to_string())).unwrap(),
        AnalyzerFilter::StopWord { language: Language::English }
    );
    assert_eq!(
        resolve_filter(&FilterStatic::custom_stopword(vec!["a".to_string()])).unwrap(),
        AnalyzerFilter::CustomStopWord { stopwords: vec!["a".to_string()] }
    );
    let error = resolve_filter(&FilterStatic::stemmer("elvish".to_string())).unwrap_err();
    assert_eq!(error.kind, ErrorKind::UnsupportedLanguage);
    let error = resolve_filter(&FilterStatic::stopword("tamil".to_string())).unwrap_err();
    assert_eq!(error.kind, ErrorKind::NoStopWords);
    assert_eq!(error.subject, "tamil");
}

#[test]
fn builder_collects_filters_in_order() {
    let mut first = TextAnalyzerBuilder::new(&TokenizerStatic::simple()).unwrap();
    let mut second = first.filter(&FilterStatic::lowercase()).unwrap();
    let mut third = second.filter(&FilterStatic::stemmer("english".to_string())).unwrap();
    let analyzer = third.build().unwrap();
    assert_eq!(
        analyzer,
        TextAnalyzer {
            tokenizer: TokenizerType::Simple,
            filters: vec![
                AnalyzerFilter::LowerCaser,
                AnalyzerFilter::Stemmer { language: Language::English },
            ],
        }
    );
}

#[test]
fn a_consumed_builder_takes_nothing_more() {
    let mut builder = TextAnalyzerBuilder::new(&TokenizerStatic::raw()).unwrap();
    let mut next = builder.filter(&FilterStatic::lowercase()).unwrap();
    for _ in 0..2 {
        let error = builder.filter(&FilterStatic::lowercase()).unwrap_err();
        assert_eq!(error.kind, ErrorKind::AnalyzerBuilderConsumed);
        assert_eq!(error.status(), Status::GenericFailure);
        assert_eq!(builder.build().unwrap_err().kind, ErrorKind::AnalyzerBuilderConsumed);
    }
    next.build().unwrap();
    assert_eq!(next.build().unwrap_err().kind, ErrorKind::AnalyzerBuilderConsumed);
    assert_eq!(
        next.filter(&FilterStatic::lowercase()).unwrap_err().kind,
        ErrorKind::AnalyzerBuilderConsumed
    );
}

#[test]
fn a_refused_filter_consumes_the_builder_too() {
    let mut builder = TextAnalyzerBuilder::new(&TokenizerStatic::simple()).unwrap();
    let error = builder.filter(&FilterStatic::stemmer("elvish".to_string())).unwrap_err();
    assert_eq!(error.kind, ErrorKind::UnsupportedLanguage);
    assert_eq!(builder.build().unwrap_err().kind, ErrorKind::AnalyzerBuilderConsumed);
}

#[test]
fn builder_checks_the_tokenizer() {
    assert!(TextAnalyzerBuilder::new(&TokenizerStatic::regex("\\w+".to_string())).is_ok());
    let error = TextAnalyzerBuilder::new(&TokenizerStatic::regex("(".to_string())).unwrap_err();
    assert_eq!(error.kind, ErrorKind::InvalidTokenizerPattern);
    assert_eq!(error.subject, "(");
    assert_eq!(error.status(), Status::GenericFailure);
    assert!(TextAnalyzerBuilder::new(&TokenizerStatic::ngram(None, None, None)).is_ok());
    assert!(TextAnalyzerBuilder::new(&TokenizerStatic::ngram(Some(3), Some(3), None)).is_ok());
    for (min, max) in [(0, 3), (4, 3), (0, 0)] {
        let tokenizer = Tokenizer {
            inner: TokenizerType::Ngram { min_gram: min, max_gram: max, prefix_only: false },
        };
        let error = TextAnalyzerBuilder::new(&tokenizer).unwrap_err();
        assert_eq!(error.kind, ErrorKind::InvalidNgramRange);
        assert_eq!(
            tantivy::tokenizer::NgramTokenizer::new(min as usize, max as usize, false).is_err(),
            true
        );
    }
}

#[test]
fn an_index_registers_the_stemming_analyzers() {
    let registered = register_custom_text_analyzers();
    assert_eq!(registered.len(), 17);
    let mut expected = LANGUAGES.to_vec();
    expected.retain(|(_, language, _)| *language != Language::English);
    for ((name, analyzer), (_, language, code)) in registered.iter().zip(expected) {
        assert_eq!(name, code);
        assert_eq!(
            *analyzer,
            TextAnalyzer {
                tokenizer: TokenizerType::Simple,
                filters: vec![
                    AnalyzerFilter::RemoveLong { length_limit: 40 },
                    AnalyzerFilter::LowerCaser,
                    AnalyzerFilter::Stemmer { language },
                ],
            }
        );
    }
    assert_eq!(registered[0].0, "ar_stem");
    assert_eq!(registered[16].0, "tr_stem");
}

#[test]
fn filters_can_be_made_by_hand() {
    let filter = Filter { inner: FilterType::AsciiFolding };
    assert_eq!(resolve_filter(&filter).unwrap(), AnalyzerFilter::AsciiFolding);
}
