use akasabi::config::{Config, Index, Jmdict};
use akasabi::index::{
    create_index, plan_writes, progress_due, BuildError, WriteOp, PROGRESS_INTERVAL,
    WRITER_MEMORY,
};
use akasabi::leaf::StructuralError;
use akasabi::query::{plan_query, Field, RESULT_LIMIT};
use akasabi::record::Record;
use akasabi::schema::{create_schema, FieldEntry, FieldId, Indexing};
use flate2::write::GzEncoder;
use flate2::Compression;
use std::io::Write;

const DICTIONARY: &str = r#"<?xml version="1.0" encoding="UTF-8"?>
<JMdict>
<entry>
<ent_seq>1000220</ent_seq>
<k_ele><keb>明白</keb></k_ele>
<r_ele><reb>めいはく</reb></r_ele>
<sense><pos>adj-na</pos><gloss>obvious</gloss><gloss>clear</gloss></sense>
</entry>
<entry>
<ent_seq>oops</ent_seq>
<r_ele><reb>あ</reb></r_ele>
</entry>
<entry>
<ent_seq>1000230</ent_seq>
<r_ele><reb>アッー</reb></r_ele>
<sense><gloss>aah</gloss></sense>
</entry>
</JMdict>
"#;

fn gzip(plain: &[u8]) -> Vec<u8> {
    let mut encoder = GzEncoder::new(Vec::new(), Compression::default());
    encoder.write_all(plain).unwrap();
    encoder.finish().unwrap()
}

fn record(id: i64) -> Record {
    Record {
        id,
        words: Vec::new(),
        readings: Vec::new(),
        readings_romaji: Vec::new(),
        meanings: Vec::new(),
        pos: Vec::new(),
        fields: Vec::new(),
    }
}

#[test]
fn test_create_index() {
    let build = create_index(&gzip(DICTIONARY.as_bytes())).unwrap();
    assert_eq!(build.ops.len(), 4);
    assert_eq!(build.added, 2);
    assert_eq!(build.ops[0], WriteOp::Clear);
    assert_eq!(build.ops[3], WriteOp::Commit);
    match &build.ops[1] {
        WriteOp::Add(record) => {
            assert_eq!(record.id, 1000220);
            assert_eq!(record.words, vec!["明白".to_string()]);
            assert_eq!(record.readings_romaji, vec!["meihaku".to_string()]);
            assert_eq!(record.meanings, vec!["obvious; clear".to_string()]);
            assert_eq!(record.pos, vec!["adj-na".to_string()]);
            assert_eq!(record.fields, vec![String::new()]);
        }
        other => panic!("expected a record, found {:?}", other),
    }
    match &build.ops[2] {
        WriteOp::Add(record) => {
            assert_eq!(record.id, 1000230);
            assert_eq!(record.readings, vec!["アッー".to_string()]);
            assert_eq!(record.readings_romaji, vec!["アッー".to_string()]);
        }
        other => panic!("expected a record, found {:?}", other),
    }
    assert_eq!(build.rejected.len(), 1);
    assert_eq!(build.rejected[0].readings, vec!["あ".to_string()]);
}

#[test]
fn building_twice_gives_the_same_session() {
    let source = gzip(DICTIONARY.as_bytes());
    assert_eq!(create_index(&source), create_index(&source));
}

#[test]
fn a_source_that_is_not_packed_is_refused() {
    assert_eq!(create_index(DICTIONARY.as_bytes()), Err(BuildError::Source));
    assert_eq!(create_index(&[]), Err(BuildError::Source));
}

#[test]
fn a_source_that_is_cut_off_is_refused() {
    let source = gzip(DICTIONARY.as_bytes());
    assert_eq!(create_index(&source[..source.len() / 2]), Err(BuildError::Source));
}

#[test]
fn a_document_without_structure_is_refused() {
    let source = gzip(b"<JMdict><entry><entry></entry></entry></JMdict>");
    assert_eq!(create_index(&source), Err(BuildError::Structure(StructuralError::EntryInEntry)));
    let source = gzip(b"<JMdict><entry>");
    assert_eq!(create_index(&source), Err(BuildError::Structure(StructuralError::Malformed)));
}

#[test]
fn an_empty_dictionary_still_clears_and_commits() {
    let build = create_index(&gzip(b"<JMdict></JMdict>")).unwrap();
    assert_eq!(build.ops, vec![WriteOp::Clear, WriteOp::Commit]);
    assert_eq!(build.added, 0);
    assert!(build.rejected.is_empty());
}

#[test]
fn a_session_clears_first_and_commits_last() {
    let ops = plan_writes(vec![record(3), record(1), record(2)]);
    assert_eq!(
        ops,
        vec![
            WriteOp::Clear,
            WriteOp::Add(record(3)),
            WriteOp::Add(record(1)),
            WriteOp::Add(record(2)),
            WriteOp::Commit,
        ]
    );
}

#[test]
fn a_search_without_a_field_goes_through_four_fields() {
    let query = plan_query("日本", None);
    assert_eq!(query.term, "日本");
    assert_eq!(
        query.target_fields,
        vec![Field::Word, Field::Reading, Field::ReadingRomaji, Field::Meaning]
    );
    assert!(query.conjunctive);
    assert_eq!(query.limit, 10);
    assert_eq!(RESULT_LIMIT, 10);
}

#[test]
fn a_search_with_a_field_goes_through_that_field() {
    for field in [Field::Word, Field::Reading, Field::ReadingRomaji, Field::Meaning] {
        let query = plan_query("to eat", Some(field));
        assert_eq!(query.term, "to eat");
        assert_eq!(query.target_fields, vec![field]);
        assert!(query.conjunctive);
        assert_eq!(query.limit, 10);
    }
}

#[test]
fn search_fields_are_fields_of_the_index() {
    assert_eq!(Field::Word.id(), FieldId::Word);
    assert_eq!(Field::Reading.id(), FieldId::Reading);
    assert_eq!(Field::ReadingRomaji.id(), FieldId::ReadingRomaji);
    assert_eq!(Field::Meaning.id(), FieldId::Meaning);
}

#[test]
fn the_schema_declares_seven_fields() {
    let schema = create_schema();
    let japanese = |field| FieldEntry { field, indexing: Indexing::Japanese, stored: true };
    let text = |field| FieldEntry { field, indexing: Indexing::Text, stored: true };
    assert_eq!(
        schema.fields,
        vec![
            FieldEntry { field: FieldId::Id, indexing: Indexing::Integer, stored: true },
            japanese(FieldId::Word),
            japanese(FieldId::Reading),
            text(FieldId::ReadingRomaji),
            text(FieldId::Meaning),
            text(FieldId::Pos),
            text(FieldId::Field),
        ]
    );
}

#[test]
fn fields_and_tokenizers_have_their_names() {
    let names: Vec<&str> = create_schema().fields.iter().map(|entry| entry.field.name()).collect();
    assert_eq!(names, ["id", "word", "reading", "reading_romaji", "meaning", "pos", "field"]);
    assert_eq!(Indexing::Integer.tokenizer(), None);
    assert_eq!(Indexing::Japanese.tokenizer(), Some("ja_JP"));
    assert_eq!(Indexing::Text.tokenizer(), Some("default"));
}

#[test]
fn settings_know_when_nothing_is_set() {
    assert!(Index { path: None }.is_default());
    assert!(!Index { path: Some("/tmp/index".to_string()) }.is_default());
    assert!(Jmdict { path: None, url: None }.is_default());
    assert!(!Jmdict { path: Some("/tmp/jmdict".to_string()), url: None }.is_default());
    assert!(!Jmdict { path: None, url: Some("https://example.org/d.gz".to_string()) }.is_default());
    let config = Config::new();
    assert!(config.index.is_default());
    assert!(config.jmdict.is_default());
}

#[test]
fn the_index_path_comes_from_the_command_line_first() {
    let mut config = Config::new();
    let fallback = || "/data/index".to_string();
    assert_eq!(config.index_path(None, fallback()), "/data/index");
    assert_eq!(config.index_path(Some("/cli".to_string()), fallback()), "/cli");
    config.index.path = Some("/tmp/index".to_string());
    assert_eq!(config.index_path(None, fallback()), "/tmp/index");
    assert_eq!(config.index_path(Some("/cli".to_string()), fallback()), "/cli");
}

#[test]
fn the_settings_in_effect_prefer_the_command_line() {
    let config = Config {
        index: Index { path: None },
        jmdict: Jmdict { path: Some("/tmp/jmdict".to_string()), url: None },
    };
    let merged = config.in_effect(
        "/tmp/index".to_string(),
        None,
        Some("https://example.org/d.gz".to_string()),
    );
    assert_eq!(
        merged,
        Config {
            index: Index { path: Some("/tmp/index".to_string()) },
            jmdict: Jmdict {
                path: Some("/tmp/jmdict".to_string()),
                url: Some("https://example.org/d.gz".to_string()),
            },
        }
    );
}

#[test]
fn progress_is_due_after_every_thousandth_record() {
    assert_eq!(PROGRESS_INTERVAL, 1000);
    assert_eq!(WRITER_MEMORY, 50_000_000);
    assert!(!progress_due(0));
    assert!(!progress_due(1));
    assert!(!progress_due(999));
    assert!(progress_due(1000));
    assert!(!progress_due(1001));
    assert!(progress_due(2000));
    assert!(progress_due(214000));
    assert!(!progress_due(u64::MAX));
}
