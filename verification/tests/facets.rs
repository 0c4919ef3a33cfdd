use tantivy::schema::Facet as EngineFacet;
use tantivy_bridge::facet::Facet;

fn texts(items: &[&str]) -> Vec<String> {
    items.iter().map(|s| s.to_string()).collect()
}

#[test]
fn root_is_the_empty_encoding() {
    let root = Facet::root();
    assert_eq!(root.encoded, "");
    assert!(root.is_root());
    assert_eq!(root.to_string(), "/");
    assert_eq!(root.to_path(), texts(&[""]));
}

#[test]
fn from_text_unescapes_and_separates() {
    let facet = Facet::from_text("/category/electronics/smartphones").unwrap();
    assert_eq!(facet.encoded, "category\0electronics\0smartphones");
    assert!(!facet.is_root());
    assert_eq!(facet.to_path_str(), "/category/electronics/smartphones");
    assert_eq!(facet.to_string(), "/category/electronics/smartphones");
    let escaped = Facet::from_text("/a\\/b/c").unwrap();
    assert_eq!(escaped.encoded, "a/b\0c");
    assert_eq!(escaped.encoded, EngineFacet::from("/a\\/b/c").encoded_str());
}

#[test]
fn from_text_needs_a_leading_slash() {
    assert!(Facet::from_text("").is_none());
    assert!(Facet::from_text("a/b").is_none());
    assert!(Facet::from_text("/").is_some());
    assert!(Facet::from_text("/").unwrap().is_root());
}

#[test]
fn from_string_is_from_text_on_a_facet_text() {
    assert_eq!(Facet::from_string("/a/b"), Facet::from_text("/a/b").unwrap());
}

#[test]
fn from_path_joins_the_segments() {
    let facet = Facet::from_path(&texts(&["category", "electronics", "phones"]));
    assert_eq!(facet.encoded, "category\0electronics\0phones");
    assert_eq!(facet, Facet::from_text("/category/electronics/phones").unwrap());
    assert_eq!(Facet::from_path(&texts(&[])), Facet::root());
    assert_eq!(Facet::from_path(&texts(&["one"])).encoded, "one");
}

#[test]
fn to_path_splits_at_the_separators() {
    let facet = Facet::from_text("/europe/france").unwrap();
    assert_eq!(facet.to_path(), texts(&["europe", "france"]));
    let with_empty = Facet { encoded: "a\0\0b".to_string() };
    assert_eq!(with_empty.to_path(), texts(&["a", "", "b"]));
}

#[test]
fn prefix_is_strict() {
    let root = Facet::root();
    let a = Facet::from_text("/a").unwrap();
    let ab = Facet::from_text("/a/b").unwrap();
    let abc = Facet::from_text("/a/bc").unwrap();
    let ax = Facet::from_text("/ax").unwrap();
    assert!(root.is_prefix_of(&a));
    assert!(!root.is_prefix_of(&root));
    assert!(a.is_prefix_of(&ab));
    assert!(a.is_prefix_of(&abc));
    assert!(!a.is_prefix_of(&a));
    assert!(!a.is_prefix_of(&ax));
    assert!(!ab.is_prefix_of(&abc));
    assert!(!ab.is_prefix_of(&a));
}

#[test]
fn from_encoded_takes_utf8_only() {
    assert_eq!(
        Facet::from_encoded("a\0b".as_bytes().to_vec()).unwrap().encoded,
        "a\0b"
    );
    assert!(Facet::from_encoded(vec![0xff, 0xfe]).is_none());
    assert_eq!(Facet::from_encoded(vec![]).unwrap(), Facet::root());
}

#[test]
fn facet_text_is_the_engines() {
    for text in ["/", "/a", "/a/b/c", "/with space/ü", "/a\\/b"] {
        let ours = Facet::from_text(text).unwrap();
        let theirs = EngineFacet::from(text);
        assert_eq!(ours.encoded, theirs.encoded_str());
        assert_eq!(ours.to_string(), theirs.to_string());
        assert_eq!(
            ours.to_path(),
            theirs.to_path().iter().map(|s| s.to_string()).collect::<Vec<_>>()
        );
    }
}

#[test]
fn clone_keeps_the_facet() {
    let facet = Facet::from_text("/a/b").unwrap();
    assert_eq!(facet.duplicate(), facet);
}

fn tricky_encodings() -> Vec<String> {
    let mut out = Vec::new();
    for text in [
        "",
        "a",
        "a\0b",
        "a\0",
        "\0",
        "\0\0",
        "a\0b\0c",
        "ab",
        "é",
        "é\0ü",
        "é\0",
        "a\0é",
        "日本\0語",
        "a/b",
        "a\\b\0c",
    ] {
        out.push(text.to_string());
    }
    out
}

#[test]
fn prefix_agrees_with_the_engine() {
    for a in tricky_encodings() {
        for b in tricky_encodings() {
            let ours = Facet { encoded: a.clone() }.is_prefix_of(&Facet { encoded: b.clone() });
            let theirs = EngineFacet::from_encoded(a.clone().into_bytes())
                .unwrap()
                .is_prefix_of(&EngineFacet::from_encoded(b.clone().into_bytes()).unwrap());
            assert_eq!(ours, theirs, "{a:?} and {b:?}");
            let shorter: Vec<char> = a.chars().collect();
            let longer: Vec<char> = b.chars().collect();
            let expected = shorter.len() < longer.len()
                && longer[..shorter.len()] == shorter[..]
                && (shorter.is_empty() || longer[shorter.len()] == '\0');
            assert_eq!(ours, expected, "{a:?} and {b:?}");
        }
    }
}

#[test]
fn paths_split_and_join_back() {
    for encoded in tricky_encodings() {
        let facet = Facet { encoded: encoded.clone() };
        let path = facet.to_path();
        assert!(!path.is_empty());
        assert!(path.iter().all(|segment| !segment.contains('\0')));
        assert_eq!(path.join("\0"), encoded);
        assert_eq!(Facet::from_path(&path), facet);
        assert_eq!(facet.is_root(), encoded.is_empty());
        assert_eq!(
            facet.to_string(),
            EngineFacet::from_encoded(encoded.clone().into_bytes()).unwrap().to_string()
        );
    }
}

#[test]
fn facet_texts_with_escapes() {
    for text in ["/a\\", "/a\\\\b", "/\\/", "//", "/a//b", "/a/", "/é/ü", "/a\\bc"] {
        let ours = Facet::from_text(text).unwrap();
        let theirs = EngineFacet::from_text(text).unwrap();
        assert_eq!(ours.encoded, theirs.encoded_str(), "{text:?}");
    }
    for text in ["", "a", "\\/a", " /a"] {
        assert!(Facet::from_text(text).is_none());
        assert!(EngineFacet::from_text(text).is_err());
    }
}
