use std::io::{Error, ErrorKind};

use lazycoder::snippet_from;
use lazycoder::{snippet_at, LazyCoderError, SnippetHandler, SnippetProvider, WholeFileReader};

const THREE_SNIPPETS: &str = "First snippet\n\n---\n\nSecond snippet\n\n---\n\nThird snippet\n";

struct TextReader(&'static str);

impl WholeFileReader for TextReader {
    fn read_to_string(&self) -> std::io::Result<String> {
        Ok(String::from(self.0))
    }
}

struct FailingReader;

impl WholeFileReader for FailingReader {
    fn read_to_string(&self) -> std::io::Result<String> {
        Err(Error::new(ErrorKind::NotFound, ""))
    }
}

#[test]
fn unavailable_snippet_file_causes_error() {
    let sut = SnippetHandler::new(FailingReader);

    let result = sut.get_snippet(0);
    assert!(
        result.is_err(),
        "Expected error when file not found, but obtained {:?}",
        result
    );
    let Err(LazyCoderError::SnippetFileError(err)) = result else {
        panic!("Unexpected error type: {:?}", result);
    };
    assert_eq!(err.kind(), ErrorKind::NotFound);
}

#[test]
fn first_snippet_is_returned() {
    let mut sut = SnippetHandler::new(TextReader(""));
    sut.set_reader(TextReader(THREE_SNIPPETS));

    let result = sut.get_snippet(0);
    assert!(
        result.is_ok(),
        "Unexpected error when getting snippet: {:?}",
        result
    );
    if let Ok(snippet) = result {
        assert_eq!(snippet, "First snippet\n");
    }
}

#[test]
fn middle_snippet_is_returned() {
    let mut sut = SnippetHandler::new(TextReader(""));
    sut.set_reader(TextReader(THREE_SNIPPETS));

    let result = sut.get_snippet(1);
    assert!(
        result.is_ok(),
        "Unexpected error when getting snippet: {:?}",
        result
    );
    if let Ok(snippet) = result {
        assert_eq!(snippet, "Second snippet\n");
    }
}

#[test]
fn last_snippet_is_returned() {
    let mut sut = SnippetHandler::new(TextReader(""));
    sut.set_reader(TextReader(THREE_SNIPPETS));

    let result = sut.get_snippet(2);
    assert!(
        result.is_ok(),
        "Unexpected error when getting snippet: {:?}",
        result
    );
    if let Ok(snippet) = result {
        assert_eq!(snippet, "Third snippet\n");
    }
}

#[test]
fn unexisting_snippet_returns_error() {
    let mut sut = SnippetHandler::new(TextReader(""));
    sut.set_reader(TextReader(THREE_SNIPPETS));

    let result = sut.get_snippet(4);
    assert!(
        result.is_err(),
        "Expected error when requesting unexisting snippet, but got: {:?}",
        result
    );
    assert!(matches!(result, Err(LazyCoderError::RunOutOfSnippets)));
}

#[test]
fn first_snippet_is_empty_for_empty_file() {
    let mut sut = SnippetHandler::new(TextReader("x"));
    sut.set_reader(TextReader(""));

    let result = sut.get_snippet(0);
    assert!(
        result.is_ok(),
        "Unexpected error when getting snippet: {:?}",
        result
    );
    if let Ok(snippet) = result {
        assert_eq!(snippet, "");
    }
}

#[test]
fn position_just_past_the_last_snippet_runs_out() {
    assert!(matches!(
        snippet_at(THREE_SNIPPETS, 3),
        Err(LazyCoderError::RunOutOfSnippets)
    ));
    assert!(matches!(
        snippet_at(THREE_SNIPPETS, usize::MAX),
        Err(LazyCoderError::RunOutOfSnippets)
    ));
}

#[test]
fn empty_file_has_no_second_snippet() {
    assert!(matches!(snippet_at("", 1), Err(LazyCoderError::RunOutOfSnippets)));
}

#[test]
fn text_without_delimiter_is_one_snippet() {
    let text = "no delimiter here\n---\nnot quite\n";
    assert_eq!(snippet_at(text, 0).unwrap(), text);
    assert!(snippet_at(text, 1).is_err());
}

#[test]
fn delimiters_at_both_ends_give_empty_snippets() {
    let text = "\n---\n\nbody\n---\n\n";
    assert_eq!(snippet_at(text, 0).unwrap(), "");
    assert_eq!(snippet_at(text, 1).unwrap(), "body");
    assert_eq!(snippet_at(text, 2).unwrap(), "");
    assert!(snippet_at(text, 3).is_err());
}

#[test]
fn overlapping_delimiters_are_taken_from_the_left() {
    // The second occurrence would start on the last newline of the first one.
    let text = "a\n---\n\n---\n\nb";
    assert_eq!(snippet_at(text, 0).unwrap(), "a");
    assert_eq!(snippet_at(text, 1).unwrap(), "---\n\nb");
    assert!(snippet_at(text, 2).is_err());
}

#[test]
fn non_ascii_snippets_are_kept_whole() {
    let text = "caf\u{e9} \u{1f600}\n---\n\n\u{fc}ber";
    assert_eq!(snippet_at(text, 0).unwrap(), "caf\u{e9} \u{1f600}");
    assert_eq!(snippet_at(text, 1).unwrap(), "\u{fc}ber");
}

#[test]
fn snippet_matches_std_split_on_samples() {
    let samples = [
        "",
        "one",
        THREE_SNIPPETS,
        "\n---\n\n",
        "\n---\n\n\n---\n\n",
        "x\n---\n\n---\n\n---\n\ny",
        "\n---\n",
    ];
    for text in samples {
        let expected: Vec<&str> = text.split("\n---\n\n").collect();
        for (position, piece) in expected.iter().enumerate() {
            assert_eq!(snippet_at(text, position).unwrap(), *piece);
        }
        assert!(snippet_at(text, expected.len()).is_err());
    }
}

#[test]
fn failed_read_is_snippet_file_error_at_every_position() {
    for position in [0, 1, 7] {
        let result = snippet_from(Err(Error::new(ErrorKind::PermissionDenied, "denied")), position);
        let Err(LazyCoderError::SnippetFileError(err)) = result else {
            panic!("Unexpected result: {:?}", result);
        };
        assert_eq!(err.kind(), ErrorKind::PermissionDenied);
    }
}

#[test]
fn successful_read_is_cut_into_snippets() {
    assert_eq!(
        snippet_from(Ok(String::from(THREE_SNIPPETS)), 1).unwrap(),
        "Second snippet\n"
    );
    assert!(matches!(
        snippet_from(Ok(String::from(THREE_SNIPPETS)), 3),
        Err(LazyCoderError::RunOutOfSnippets)
    ));
}

#[test]
fn edits_between_reads_are_seen() {
    let mut sut = SnippetHandler::new(TextReader("old"));
    assert_eq!(sut.get_snippet(0).unwrap(), "old");
    sut.set_reader(TextReader("new\n---\n\nsecond"));
    assert_eq!(sut.get_snippet(0).unwrap(), "new");
    assert_eq!(sut.get_snippet(1).unwrap(), "second");
}
