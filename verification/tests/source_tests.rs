use jambot::source::{classify_source, SourceKind};

#[test]
fn full_url_is_fetched_directly() {
    assert_eq!(
        classify_source("https://www.youtube.com/watch?v=dQw4w9WgXcQ"),
        SourceKind::Direct
    );
}

#[test]
fn plain_words_become_a_search() {
    assert_eq!(
        classify_source("never gonna give you up"),
        SourceKind::Search
    );
}

#[test]
fn relative_path_becomes_a_search() {
    assert_eq!(classify_source("watch?v=dQw4w9WgXcQ"), SourceKind::Search);
}
