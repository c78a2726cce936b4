use akasabi::romaji::{is_romanizable, romanize};
use wana_kana::ConvertJapanese;

#[test]
fn romanize_transliterates_kana() {
    assert_eq!(romanize("にほん"), "nihon");
    assert_eq!(romanize("ひらがな　カタカナ"), "hiragana katakana");
    assert_eq!(romanize("ばつげーむ"), "batsuge-mu");
    assert_eq!(romanize("ラーメン"), "raamen");
    assert_eq!(romanize(""), "");
}

#[test]
fn romanize_agrees_with_the_converter() {
    for reading in ["にほん", "トウキョウ", "コーヒー", "ー", "ヶー", "あっー", "abc", "日本"] {
        assert!(is_romanizable(reading));
        assert_eq!(romanize(reading), reading.to_romaji());
    }
}

#[test]
fn romanize_leaves_other_characters_unchanged() {
    assert_eq!(romanize("abc 123"), "abc 123");
    assert_eq!(romanize("日本"), "日本");
}

#[test]
fn a_reading_that_the_converter_cannot_take_comes_back_unchanged() {
    for reading in ["アッー", "ッー", "ヷー", "ヸ・ー", "ヹヶー", "ヺーー", "あアッーい"] {
        assert!(!is_romanizable(reading));
        assert_eq!(romanize(reading), reading);
    }
}

#[test]
fn a_long_mark_after_other_kana_is_accepted() {
    for reading in ["アー", "ッアー", "ヷアー", "ッあー", "ッ ー", "ンー"] {
        assert!(is_romanizable(reading));
        assert_eq!(romanize(reading), reading.to_romaji());
    }
}
