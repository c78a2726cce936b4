use akasabi::record::Record;
use akasabi::render::{plain_text, render, Role, Span};

fn texts(list: &[&str]) -> Vec<String> {
    list.iter().map(|text| text.to_string()).collect()
}

fn japan() -> Record {
    Record {
        id: 1,
        words: texts(&["日本"]),
        readings: texts(&["にほん"]),
        readings_romaji: texts(&["nihon"]),
        meanings: texts(&["Japan; Japanese"]),
        pos: texts(&["noun; proper noun"]),
        fields: texts(&["place; country"]),
    }
}

fn kana_only() -> Record {
    Record {
        id: 2,
        words: Vec::new(),
        readings: texts(&["あれ", "アレ"]),
        readings_romaji: texts(&["are", "are"]),
        meanings: texts(&["that", "hey; huh"]),
        pos: texts(&["pn", "int"]),
        fields: texts(&["", ""]),
    }
}

fn span(role: Role, text: &str) -> Span {
    Span { role, text: text.to_string() }
}

#[test]
fn a_record_with_words_is_headed_by_words_and_readings() {
    let text = plain_text(&render(&japan(), false));
    assert_eq!(text, "日本 (にほん)\n1. [noun; proper noun;place; country] Japan; Japanese\n\n");
}

#[test]
fn a_record_without_words_is_headed_by_its_readings() {
    let text = plain_text(&render(&kana_only(), false));
    assert_eq!(text, "あれ、アレ\n1. [pn;] that\n2. [int;] hey; huh\n\n");
}

#[test]
fn several_words_are_separated() {
    let mut record = japan();
    record.words = texts(&["日本", "日本国"]);
    record.readings = texts(&["にほん", "にっぽん"]);
    let text = plain_text(&render(&record, true));
    assert!(text.starts_with("日本; 日本国 (にほん、にっぽん)\n"));
}

#[test]
fn styling_gives_each_piece_its_role() {
    let spans = render(&japan(), true);
    let expected = vec![
        span(Role::Headword, "日本"),
        span(Role::Plain, " ("),
        span(Role::Reading, "にほん"),
        span(Role::Plain, ")"),
        span(Role::Plain, "\n"),
        span(Role::Index, "1."),
        span(Role::Plain, " ["),
        span(Role::Tag, "noun; proper noun"),
        span(Role::Plain, ";"),
        span(Role::Tag, "place; country"),
        span(Role::Plain, "]"),
        span(Role::Plain, " "),
        span(Role::Meaning, "Japan"),
        span(Role::Separator, "; "),
        span(Role::Meaning, "Japanese"),
        span(Role::Plain, "\n"),
        span(Role::Plain, "\n"),
    ];
    assert_eq!(spans, expected);
}

#[test]
fn the_readings_of_a_record_without_words_are_its_headword() {
    let spans = render(&kana_only(), true);
    assert_eq!(spans[0], span(Role::Headword, "あれ、アレ"));
    assert_eq!(spans[1], span(Role::Plain, "\n"));
}

#[test]
fn styling_changes_no_text() {
    for record in [japan(), kana_only()] {
        let styled = render(&record, true);
        let unstyled = render(&record, false);
        assert_eq!(plain_text(&styled), plain_text(&unstyled));
        assert_eq!(styled.len(), unstyled.len());
        assert!(unstyled.iter().all(|span| span.role == Role::Plain));
    }
}

#[test]
fn senses_are_laid_out_as_far_as_all_three_lists_reach() {
    let mut record = kana_only();
    record.pos = texts(&["pn"]);
    let text = plain_text(&render(&record, false));
    assert_eq!(text, "あれ、アレ\n1. [pn;] that\n\n");
}

#[test]
fn a_record_without_senses_is_its_headline_and_a_blank_line() {
    let mut record = japan();
    record.meanings.clear();
    record.pos.clear();
    record.fields.clear();
    assert_eq!(plain_text(&render(&record, false)), "日本 (にほん)\n\n");
}

#[test]
fn senses_are_numbered_from_one() {
    let mut record = kana_only();
    let many: Vec<String> = (0..12).map(|n| format!("m{}", n)).collect();
    record.pos = vec![String::new(); 12];
    record.fields = vec![String::new(); 12];
    record.meanings = many;
    let text = plain_text(&render(&record, false));
    assert!(text.contains("\n1. [;] m0\n"));
    assert!(text.contains("\n10. [;] m9\n"));
    assert!(text.ends_with("\n12. [;] m11\n\n"));
}

#[test]
fn plain_text_of_nothing_is_empty() {
    assert_eq!(plain_text(&Vec::new()), "");
}
