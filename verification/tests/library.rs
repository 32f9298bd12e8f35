use repogpt::config::Config;
use repogpt::config::ConfigError;
use repogpt::embedding::EmbeddingError;
use repogpt::index::IndexError;
use repogpt::index::KnowledgeSnippets;
use repogpt::section::section_ranges;
use repogpt::section::section_texts;
use repogpt::source_file::SourceFile;
use repogpt::source_file::SourceSection;
use repogpt::CONFIG_VERSION;

fn config_with(patterns: Vec<&str>) -> Config {
    let mut config = Config::default();
    config.source_files = patterns.into_iter().map(String::from).collect();
    config
}

#[test]
fn read_lines_test() {
    let sf = SourceFile::new(
        String::from("."),
        String::from("Hello\nmy name is blank\nand I am a big fan rust\nand its cool \ntype system"),
        vec![],
    );
    assert_eq!(
        sf.read_lines(0, 2),
        "Hello\nmy name is blank\nand I am a big fan rust"
    );
    assert_eq!(sf.read_lines(5, 6), "type system");
}

#[test]
fn read_lines_round_trip_and_clamp() {
    let sf = SourceFile::new(
        String::from("greeting.txt"),
        String::from("Hello\nmy name is blank\nand I am a big fan\nand its cool\ntype system"),
        vec![],
    );
    assert_eq!(sf.line_count(), 5);
    assert_eq!(
        sf.read_lines(0, 2),
        "Hello\nmy name is blank\nand I am a big fan"
    );
    assert_eq!(sf.read_lines(5, 6), "type system");
}

#[test]
fn read_lines_empty_file_and_empty_range() {
    let sf = SourceFile::new(String::from("empty.txt"), String::new(), vec![]);
    assert_eq!(sf.line_count(), 0);
    assert_eq!(sf.read_lines(0, 10), "");

    let sf = SourceFile::new(String::from("two.txt"), String::from("a\nb"), vec![]);
    assert_eq!(sf.read_lines(1, 0), "");
}

#[test]
fn read_lines_strips_carriage_returns() {
    let sf = SourceFile::new(String::from("crlf.txt"), String::from("a\r\nb\r\nc"), vec![]);
    assert_eq!(sf.line_count(), 3);
    assert_eq!(sf.read_lines(0, 2), "a\nb\nc");
}

#[test]
fn trailing_newline_yields_no_extra_line() {
    let sf = SourceFile::new(String::from("t.txt"), String::from("a\nb\n"), vec![]);
    assert_eq!(sf.line_count(), 2);
    assert_eq!(sf.read_lines(0, 1), "a\nb");
}

#[test]
fn sections_cover_every_line_exactly_as_specified() {
    let ranges = section_ranges(10, 4, 2);
    assert_eq!(ranges, vec![(0, 3), (2, 5), (4, 7), (6, 9), (8, 9)]);
    // every line of [0, 10) lies in at least one range, and every range
    // lies inside the file
    for line in 0..10 {
        assert!(ranges.iter().any(|&(s, e)| s <= line && line <= e));
    }
    for &(s, e) in &ranges {
        assert!(s <= e && e < 10);
    }
}

#[test]
fn section_starts_strictly_increase() {
    let ranges = section_ranges(1000, 50, 25);
    for pair in ranges.windows(2) {
        assert!(pair[0].0 < pair[1].0);
    }
}

#[test]
fn section_boundaries() {
    assert_eq!(section_ranges(0, 50, 25).len(), 0);
    assert_eq!(section_ranges(1, 50, 25), vec![(0, 0)]);
}

#[test]
fn section_texts_join_the_window_lines() {
    let texts = section_texts("a\nb\nc\nd\ne", 2, 2);
    assert_eq!(texts, vec!["a\nb", "c\nd", "e"]);
}

#[test]
fn discovery_matches_any_pattern_without_duplicates() {
    let config = config_with(vec!["\\.rs$"]);
    let candidates = vec![
        String::from("./src/main.rs"),
        String::from("./README.md"),
    ];
    let found = config.get_source_files(&candidates).unwrap();
    assert_eq!(found, vec![String::from("./src/main.rs")]);

    // a file matching several patterns appears exactly once
    let config = config_with(vec!["\\.rs$", "main"]);
    let found = config.get_source_files(&candidates).unwrap();
    assert_eq!(found, vec![String::from("./src/main.rs")]);
}

#[test]
fn discovery_rejects_invalid_pattern_before_looking_at_candidates() {
    let config = config_with(vec!["\\.rs$", "("]);
    let candidates = vec![String::from("./src/main.rs")];
    match config.get_source_files(&candidates) {
        Err(ConfigError::InvalidPattern { pattern }) => assert_eq!(pattern, "("),
        _ => panic!("an unbalanced group must be refused"),
    }
}

#[test]
fn config_version_gate() {
    let mut config = Config::default();
    assert!(config.check().is_ok());
    config.config_version = CONFIG_VERSION + 1;
    match config.check() {
        Err(ConfigError::VersionMismatch { found, expected }) => {
            assert_eq!(found, CONFIG_VERSION + 1);
            assert_eq!(expected, CONFIG_VERSION);
        }
        _ => panic!("a version mismatch must be refused"),
    }
}

#[test]
fn config_rejects_sectioning_that_skips_lines() {
    let mut config = Config::default();
    config.section_subdividing_size_lines = 10;
    config.section_subdividing_offset_lines = 11;
    match config.check() {
        Err(ConfigError::InvalidSectioning { size_lines, offset_lines }) => {
            assert_eq!(size_lines, 10);
            assert_eq!(offset_lines, 11);
        }
        _ => panic!("a stride above the window must be refused"),
    }
    config.section_subdividing_offset_lines = 0;
    assert!(config.check().is_err());
}

#[test]
fn config_default_values() {
    let config = Config::default();
    assert_eq!(config.config_version, CONFIG_VERSION);
    assert_eq!(
        config.source_files,
        vec!["./README.md", "./*.txt", "./*.rs", "./src/"]
    );
    assert_eq!(config.code_search_embedding_model, "text-embedding-ada-002");
    assert_eq!(config.section_subdividing_size_lines, 50);
    assert_eq!(config.section_subdividing_offset_lines, 25);
}

#[test]
fn from_content_pairs_ranges_with_vectors() {
    let content = String::from("a\nb\nc\nd\ne");
    let vectors = vec![vec![1, 2], vec![3, 4], vec![5, 6]];
    let sf = SourceFile::from_content(String::from("f.txt"), content, 2, 2, vectors);
    assert_eq!(sf.path(), "f.txt");
    assert_eq!(sf.content(), "a\nb\nc\nd\ne");
    assert_eq!(sf.line_count(), 5);
    let sections = sf.sections();
    assert_eq!(sections.len(), 3);
    assert_eq!(
        (sections[0].start_line, sections[0].end_line),
        (0, 1)
    );
    assert_eq!(
        (sections[2].start_line, sections[2].end_line),
        (4, 4)
    );
    assert_eq!(sections[1].embedding_vector, vec![3, 4]);
}

#[test]
fn abort_on_first_error_reports_the_failing_path() {
    let ok = |name: &str| {
        Ok(SourceFile::new(String::from(name), String::from("x"), vec![]))
    };
    let outcomes: Vec<Result<SourceFile, IndexError>> = vec![
        ok("a"),
        ok("b"),
        Err(IndexError::Embedding {
            path: String::from("c"),
            section: 0,
            error: EmbeddingError::AuthOrQuota,
        }),
        ok("d"),
        ok("e"),
    ];
    match KnowledgeSnippets::new(Config::default(), outcomes) {
        Err(error) => assert_eq!(error.error_path(), "c"),
        Ok(_) => panic!("a failed file must fail the whole run"),
    }
}

#[test]
fn unreadable_file_aborts_the_run() {
    let outcomes: Vec<Result<SourceFile, IndexError>> = vec![
        Err(IndexError::FileRead { path: String::from("binary.bin") }),
    ];
    match KnowledgeSnippets::new(Config::default(), outcomes) {
        Err(error) => {
            assert_eq!(error.error_path(), "binary.bin");
            assert!(matches!(error, IndexError::FileRead { .. }));
        }
        Ok(_) => panic!("an unreadable file must fail the whole run"),
    }
}

#[test]
fn all_files_indexed_yields_the_document_in_order() {
    let outcomes: Vec<Result<SourceFile, IndexError>> = vec![
        Ok(SourceFile::new(String::from("a"), String::from("1"), vec![])),
        Ok(SourceFile::new(String::from("b"), String::from("2"), vec![])),
    ];
    let doc = KnowledgeSnippets::new(Config::default(), outcomes).unwrap();
    assert_eq!(doc.files().len(), 2);
    assert_eq!(doc.files()[0].path(), "a");
    assert_eq!(doc.files()[1].path(), "b");
    assert_eq!(doc.config().config_version, CONFIG_VERSION);
}

#[test]
fn retry_policy() {
    assert!(EmbeddingError::RateLimited.retryable());
    assert!(EmbeddingError::Transport.retryable());
    assert!(!EmbeddingError::EmptyResult.retryable());
    assert!(!EmbeddingError::AuthOrQuota.retryable());

    assert!(repogpt::embedding::should_retry(&EmbeddingError::RateLimited, 0, 3));
    assert!(repogpt::embedding::should_retry(&EmbeddingError::Transport, 2, 3));
    assert!(!repogpt::embedding::should_retry(&EmbeddingError::RateLimited, 3, 3));
    assert!(!repogpt::embedding::should_retry(&EmbeddingError::EmptyResult, 0, 3));
}

#[test]
fn backoff_doubles_and_caps() {
    assert_eq!(repogpt::embedding::backoff_delay_ms(0, 100, 10_000), 100);
    assert_eq!(repogpt::embedding::backoff_delay_ms(1, 100, 10_000), 200);
    assert_eq!(repogpt::embedding::backoff_delay_ms(3, 100, 10_000), 800);
    assert_eq!(repogpt::embedding::backoff_delay_ms(30, 100, 10_000), 10_000);
    assert_eq!(repogpt::embedding::backoff_delay_ms(0, 20_000, 10_000), 10_000);
}

#[test]
fn sections_are_accepted_by_the_constructor() {
    let section = SourceSection {
        start_line: 0,
        end_line: 1,
        embedding_vector: vec![7],
    };
    let sf = SourceFile::new(String::from("s.txt"), String::from("x\ny\nz"), vec![section]);
    assert_eq!(sf.sections().len(), 1);
    assert_eq!(sf.sections()[0].embedding_vector, vec![7]);
}
