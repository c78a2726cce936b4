use akasabi::event::{classify, Event, Tag};
use akasabi::index::parse_document;
use akasabi::leaf::{extract_next_string, StructuralError};
use akasabi::parser::{parse_events, Parser};
use akasabi::record::{Entry, Sense};
use wana_kana::ConvertJapanese;
use xml::reader::{EventReader, XmlEvent};

const ONE_ENTRY: &str = r#"
            <entry>
                <ent_seq>1</ent_seq>
                <k_ele>
                    <keb>日本</keb>
                </k_ele>
                <r_ele>
                    <reb>にほん</reb>
                </r_ele>
                <sense>
                    <gloss>Japan</gloss>
                    <gloss>Japanese</gloss>
                    <pos>noun</pos>
                    <pos>proper noun</pos>
                    <field>place</field>
                    <field>country</field>
                </sense>
            </entry>
        "#;

fn events_of(document: &str) -> Vec<Event> {
    let mut events = Vec::new();
    for event in EventReader::from_str(document) {
        events.push(match event {
            Ok(XmlEvent::StartElement { name, .. }) => Event::Start(name.local_name),
            Ok(XmlEvent::EndElement { name }) => Event::End(name.local_name),
            Ok(XmlEvent::Characters(text)) => Event::Characters(text),
            Ok(XmlEvent::EndDocument) => Event::EndDocument,
            Ok(_) => Event::Other,
            Err(_) => Event::Malformed,
        });
    }
    events
}

fn start(name: &str) -> Event {
    Event::Start(name.to_string())
}

fn end(name: &str) -> Event {
    Event::End(name.to_string())
}

fn chars(text: &str) -> Event {
    Event::Characters(text.to_string())
}

fn leaf(name: &str, text: &str) -> Vec<Event> {
    vec![start(name), chars(text), end(name)]
}

fn texts(list: &[&str]) -> Vec<String> {
    list.iter().map(|text| text.to_string()).collect()
}

#[test]
fn test_extract_next_string() {
    let events = events_of(ONE_ENTRY);
    let mut pos = 0;
    let expected = [
        "1",
        "日本",
        "にほん",
        "Japan",
        "Japanese",
        "noun",
        "proper noun",
        "place",
        "country",
    ];
    for value in expected {
        let (text, next) = extract_next_string(&events, pos).unwrap();
        assert_eq!(text, value);
        assert!(next > pos);
        pos = next;
    }
}

#[test]
fn extract_concatenates_runs_up_to_the_end_tag() {
    let events = vec![chars("ab"), Event::Other, chars("c"), end("gloss"), chars("d")];
    assert_eq!(extract_next_string(&events, 0), Ok(("abc".to_string(), 4)));
    let whole = vec![chars("abc"), end("gloss")];
    assert_eq!(extract_next_string(&whole, 0), Ok(("abc".to_string(), 2)));
}

#[test]
fn extract_passes_over_other_tags() {
    let events = vec![
        chars("a"),
        start("b"),
        chars("c"),
        end("b"),
        end("entry"),
        end("sense"),
        chars("d"),
        end("keb"),
    ];
    assert_eq!(extract_next_string(&events, 0), Ok(("acd".to_string(), 8)));
}

#[test]
fn extract_stops_at_the_first_leaf_end_tag() {
    for name in ["ent_seq", "keb", "reb", "gloss", "pos", "field"] {
        let events = vec![chars("x"), end(name), chars("y"), end("keb")];
        assert_eq!(extract_next_string(&events, 0), Ok(("x".to_string(), 2)));
    }
}

#[test]
fn extract_without_character_data_is_empty() {
    let events = vec![Event::Other, end("reb")];
    assert_eq!(extract_next_string(&events, 0), Ok((String::new(), 2)));
}

#[test]
fn extract_fails_when_the_stream_ends_first() {
    let events = vec![chars("a"), Event::EndDocument, end("keb")];
    assert_eq!(extract_next_string(&events, 0), Err(StructuralError::UnexpectedEnd));
    let cut = vec![chars("a")];
    assert_eq!(extract_next_string(&cut, 0), Err(StructuralError::UnexpectedEnd));
    assert_eq!(extract_next_string(&cut, 1), Err(StructuralError::UnexpectedEnd));
    assert_eq!(extract_next_string(&cut, 7), Err(StructuralError::UnexpectedEnd));
}

#[test]
fn extract_fails_on_malformed_input() {
    let events = vec![chars("a"), Event::Malformed, end("keb")];
    assert_eq!(extract_next_string(&events, 0), Err(StructuralError::Malformed));
}

#[test]
fn classify_knows_the_eight_elements() {
    assert_eq!(classify("entry"), Tag::Entry);
    assert_eq!(classify("sense"), Tag::Sense);
    assert_eq!(classify("ent_seq"), Tag::EntSeq);
    assert_eq!(classify("keb"), Tag::Keb);
    assert_eq!(classify("reb"), Tag::Reb);
    assert_eq!(classify("gloss"), Tag::Gloss);
    assert_eq!(classify("pos"), Tag::Pos);
    assert_eq!(classify("field"), Tag::Field);
    assert_eq!(classify("k_ele"), Tag::Other);
    assert_eq!(classify("Entry"), Tag::Other);
    assert_eq!(classify("entr"), Tag::Other);
    assert_eq!(classify(""), Tag::Other);
    assert_eq!(classify("日本語"), Tag::Other);
    assert!(Tag::Keb.leaf());
    assert!(Tag::EntSeq.leaf());
    assert!(!Tag::Entry.leaf());
    assert!(!Tag::Sense.leaf());
    assert!(!Tag::Other.leaf());
}

#[test]
fn one_entry_gives_one_record() {
    let parsed = parse_document(ONE_ENTRY.as_bytes()).unwrap();
    assert!(parsed.rejected.is_empty());
    assert_eq!(parsed.records.len(), 1);
    let record = &parsed.records[0];
    assert_eq!(record.id, 1);
    assert_eq!(record.words, texts(&["日本"]));
    assert_eq!(record.readings, texts(&["にほん"]));
    assert_eq!(record.readings_romaji, vec!["にほん".to_romaji()]);
    assert_eq!(record.readings_romaji, texts(&["nihon"]));
    assert_eq!(record.meanings, texts(&["Japan; Japanese"]));
    assert_eq!(record.pos, texts(&["noun; proper noun"]));
    assert_eq!(record.fields, texts(&["place; country"]));
}

#[test]
fn the_same_events_give_the_same_record() {
    let from_events = parse_events(&events_of(ONE_ENTRY)).unwrap();
    let from_document = parse_document(ONE_ENTRY.as_bytes()).unwrap();
    assert_eq!(from_events, from_document);
}

#[test]
fn an_entry_without_a_word_has_no_words() {
    let document = "<JMdict><entry><ent_seq>7</ent_seq><reb>あ</reb><reb>ア</reb>\
                    <sense><gloss>ah</gloss></sense><sense><gloss>oh</gloss><pos>int</pos></sense>\
                    </entry></JMdict>";
    let parsed = parse_document(document.as_bytes()).unwrap();
    let record = &parsed.records[0];
    assert_eq!(record.id, 7);
    assert!(record.words.is_empty());
    assert_eq!(record.readings, texts(&["あ", "ア"]));
    assert_eq!(record.readings_romaji, texts(&["a", "a"]));
    assert_eq!(record.meanings, texts(&["ah", "oh"]));
    assert_eq!(record.pos, texts(&["", "int"]));
    assert_eq!(record.fields, texts(&["", ""]));
}

#[test]
fn entries_come_out_in_the_order_of_the_document() {
    let document = "<d><entry><ent_seq>3</ent_seq><keb>a</keb><keb>b</keb><reb>x</reb></entry>\
                    <entry><ent_seq>-2</ent_seq><reb>y</reb></entry></d>";
    let parsed = parse_document(document.as_bytes()).unwrap();
    assert_eq!(parsed.records.len(), 2);
    assert_eq!(parsed.records[0].id, 3);
    assert_eq!(parsed.records[0].words, texts(&["a", "b"]));
    assert_eq!(parsed.records[1].id, -2);
    assert!(parsed.records[1].meanings.is_empty());
}

#[test]
fn the_walk_stops_at_the_first_end_of_the_document() {
    let mut events = vec![start("entry")];
    events.extend(leaf("ent_seq", "5"));
    events.extend(leaf("reb", "か"));
    events.push(end("entry"));
    let plain = parse_events(&events).unwrap();
    assert_eq!(plain.records.len(), 1);

    let mut once = events.clone();
    once.push(Event::EndDocument);
    assert_eq!(parse_events(&once).unwrap(), plain);

    let mut repeated = once.clone();
    repeated.push(Event::EndDocument);
    repeated.push(Event::EndDocument);
    assert_eq!(parse_events(&repeated).unwrap(), plain);

    let mut followed = once.clone();
    followed.push(start("entry"));
    followed.extend(leaf("ent_seq", "6"));
    followed.push(end("entry"));
    followed.push(Event::Malformed);
    assert_eq!(parse_events(&followed).unwrap(), plain);
}

#[test]
fn no_events_give_no_records() {
    let parsed = parse_events(&[]).unwrap();
    assert!(parsed.records.is_empty());
    assert!(parsed.rejected.is_empty());
    let parsed = parse_events(&[Event::EndDocument]).unwrap();
    assert!(parsed.records.is_empty());
}

#[test]
fn an_entry_with_an_invalid_sequence_number_is_rejected() {
    let mut events = vec![start("entry")];
    events.extend(leaf("ent_seq", "12a"));
    events.extend(leaf("keb", "猫"));
    events.push(end("entry"));
    events.push(start("entry"));
    events.extend(leaf("ent_seq", "13"));
    events.push(end("entry"));
    let parsed = parse_events(&events).unwrap();
    assert_eq!(parsed.records.len(), 1);
    assert_eq!(parsed.records[0].id, 13);
    assert_eq!(parsed.rejected.len(), 1);
    assert_eq!(parsed.rejected[0].id, None);
    assert!(parsed.rejected[0].id_invalid);
    assert_eq!(parsed.rejected[0].words, texts(&["猫"]));
}

#[test]
fn an_invalid_sequence_number_is_not_mended_by_a_valid_one() {
    let mut events = vec![start("entry")];
    events.extend(leaf("ent_seq", ""));
    events.extend(leaf("ent_seq", "4"));
    events.push(end("entry"));
    let parsed = parse_events(&events).unwrap();
    assert!(parsed.records.is_empty());
    assert_eq!(parsed.rejected.len(), 1);
    assert_eq!(parsed.rejected[0].id, Some(4));
}

#[test]
fn an_entry_without_a_sequence_number_is_rejected() {
    let mut events = vec![start("entry")];
    events.extend(leaf("reb", "ね"));
    events.push(end("entry"));
    let parsed = parse_events(&events).unwrap();
    assert!(parsed.records.is_empty());
    assert_eq!(parsed.rejected.len(), 1);
    assert!(!parsed.rejected[0].id_invalid);
}

#[test]
fn an_entry_inside_an_entry_is_an_error() {
    let events = vec![start("entry"), start("entry")];
    assert_eq!(parse_events(&events), Err(StructuralError::EntryInEntry));
}

#[test]
fn a_sense_inside_a_sense_is_an_error() {
    let events = vec![start("entry"), start("sense"), start("sense")];
    assert_eq!(parse_events(&events), Err(StructuralError::SenseInSense));
}

#[test]
fn values_of_an_entry_outside_any_entry_are_an_error() {
    for name in ["ent_seq", "keb", "reb"] {
        assert_eq!(parse_events(&leaf(name, "1")), Err(StructuralError::NoEntry));
    }
    assert_eq!(parse_events(&[end("entry")]), Err(StructuralError::NoEntry));
    let mut after = vec![start("entry")];
    after.extend(leaf("ent_seq", "1"));
    after.push(end("entry"));
    after.extend(leaf("keb", "x"));
    assert_eq!(parse_events(&after), Err(StructuralError::NoEntry));
}

#[test]
fn values_of_a_sense_outside_any_entry_are_dropped() {
    let mut events = vec![start("sense")];
    events.extend(leaf("gloss", "x"));
    events.push(end("sense"));
    let parsed = parse_events(&events).unwrap();
    assert!(parsed.records.is_empty());
    assert!(parsed.rejected.is_empty());
}

#[test]
fn a_stream_that_ends_inside_an_element_is_an_error() {
    assert_eq!(parse_events(&[start("entry")]), Err(StructuralError::UnexpectedEnd));
    assert_eq!(
        parse_events(&[start("entry"), Event::EndDocument]),
        Err(StructuralError::UnexpectedEnd)
    );
    assert_eq!(parse_events(&[start("sense")]), Err(StructuralError::UnexpectedEnd));
    assert_eq!(
        parse_events(&[start("entry"), start("keb"), chars("x")]),
        Err(StructuralError::UnexpectedEnd)
    );
    assert_eq!(
        parse_events(&[start("entry"), start("keb"), chars("x"), Event::EndDocument]),
        Err(StructuralError::UnexpectedEnd)
    );
}

#[test]
fn malformed_input_is_an_error() {
    assert_eq!(parse_events(&[Event::Malformed]), Err(StructuralError::Malformed));
    assert_eq!(
        parse_events(&[start("entry"), start("keb"), Event::Malformed]),
        Err(StructuralError::Malformed)
    );
    let cut = "<JMdict><entry><ent_seq>1</ent_seq><keb>日";
    assert_eq!(parse_document(cut.as_bytes()), Err(StructuralError::Malformed));
    let unclosed = "<JMdict><entry><ent_seq>1</ent_seq>";
    assert_eq!(parse_document(unclosed.as_bytes()), Err(StructuralError::Malformed));
    assert_eq!(parse_document(b"not xml at all"), Err(StructuralError::Malformed));
}

#[test]
fn the_values_of_a_sense_stay_until_the_next_sense_starts() {
    let mut events = vec![start("entry")];
    events.extend(leaf("ent_seq", "1"));
    events.push(start("sense"));
    events.extend(leaf("gloss", "a"));
    events.push(end("sense"));
    events.push(end("sense"));
    events.push(start("sense"));
    events.push(end("sense"));
    events.push(end("entry"));
    let parsed = parse_events(&events).unwrap();
    assert_eq!(parsed.records[0].meanings, texts(&["a", "a", ""]));
}

#[test]
fn the_state_can_be_fed_step_by_step() {
    let mut events = vec![Event::Other, start("entry")];
    events.extend(leaf("ent_seq", "9"));
    events.push(end("entry"));
    events.push(Event::EndDocument);
    let mut parser = Parser::new();
    assert_eq!(parser.advance(&events, 0), Ok(Some(1)));
    assert_eq!(parser.entry, None);
    assert_eq!(parser.advance(&events, 1), Ok(Some(2)));
    assert_eq!(parser.entry, Some(Entry::new()));
    assert_eq!(parser.advance(&events, 2), Ok(Some(5)));
    assert_eq!(parser.entry.as_ref().unwrap().id, Some(9));
    assert_eq!(parser.advance(&events, 5), Ok(Some(6)));
    assert_eq!(parser.entry, None);
    assert_eq!(parser.records.len(), 1);
    assert_eq!(parser.advance(&events, 6), Ok(None));
    assert_eq!(parser.sense, Sense::new());
    let parsed = parser.finish().unwrap();
    assert_eq!(parsed.records[0].id, 9);
}

#[test]
fn events_that_have_run_out_are_the_end_of_the_document() {
    let events = vec![start("entry")];
    let mut parser = Parser::new();
    assert_eq!(parser.advance(&events, 1), Ok(None));
    assert_eq!(parser.advance(&events, 50), Ok(None));
    assert_eq!(parser, Parser::new());
    assert_eq!(parser.advance(&events, 0), Ok(Some(1)));
    assert_eq!(parser.advance(&events, 0), Err(StructuralError::EntryInEntry));
    assert_eq!(parser.entry, Some(Entry::new()));
}

#[test]
fn a_failed_step_leaves_the_state_as_it_was() {
    let mut events = leaf("keb", "x");
    events.push(start("sense"));
    events.push(start("sense"));
    let mut parser = Parser::new();
    assert_eq!(parser.advance(&events, 0), Err(StructuralError::NoEntry));
    assert_eq!(parser, Parser::new());
    assert_eq!(parser.advance(&events, 3), Ok(Some(4)));
    let before = parser.clone();
    assert_eq!(parser.advance(&events, 4), Err(StructuralError::SenseInSense));
    assert_eq!(parser, before);
    assert_eq!(parser.finish(), Err(StructuralError::UnexpectedEnd));
}
