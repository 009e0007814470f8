use japanki::category::Category;
use japanki::vocab::{display_option, MaskableVocabField, MaskedVocab, Vocab};

fn sample(kanji: Option<&str>, example: Option<&str>) -> Vocab {
    Vocab {
        level: 1,
        order: 2,
        category: Category::Food,
        hiragana: "たべもの".to_string(),
        kanji: kanji.map(|k| k.to_string()),
        romaji: "tabemono".to_string(),
        meaning: "food".to_string(),
        example: example.map(|e| e.to_string()),
    }
}

#[test]
fn display_option_shows_placeholder_for_absent_text() {
    assert_eq!(display_option(&Some("text".to_string())), "text");
    assert_eq!(display_option(&None), "-");
}

#[test]
fn short_display_with_kanji() {
    let v = sample(Some("食べ物"), None);
    assert_eq!(v.short_display(), "たべもの | 食べ物 | tabemono");
}

#[test]
fn short_display_without_kanji() {
    let v = sample(None, None);
    assert_eq!(v.short_display(), "たべもの | tabemono");
}

#[test]
fn full_display_with_kanji_and_example() {
    let v = sample(Some("食べ物"), Some("example text"));
    assert_eq!(
        v.full_display(),
        "\n====== Food 2 | Level 1 =====\nたべもの | 食べ物 | tabemono\nMeaning: food\nExample: example text\n"
    );
}

#[test]
fn full_display_without_optional_fields() {
    let v = sample(None, None);
    assert_eq!(
        v.full_display(),
        "\n====== Food 2 | Level 1 =====\nたべもの | tabemono\nMeaning: food\n"
    );
}

#[test]
fn line_display_with_and_without_optional_fields() {
    let v = sample(Some("食べ物"), Some("ex"));
    assert_eq!(
        v.line_display(),
        "Food 2 | Level 1 || たべもの | 食べ物 | tabemono | food | ex"
    );
    let w = sample(None, None);
    assert_eq!(
        w.line_display(),
        "Food 2 | Level 1 || たべもの |  -  | tabemono | food |  - "
    );
}

#[test]
fn masked_display_for_romaji_quiz() {
    let v = sample(Some("食べ物"), None);
    let fields = vec![MaskableVocabField::Hiragana, MaskableVocabField::Romaji];
    let m = MaskedVocab { vocab: &v, masked_field: &fields };
    assert_eq!(
        m.masked_display(),
        "\n====== Food 2 | Level 1 =====\nHiragana: ??? | 食べ物 | Romaji: ???\nMeaning: food\n"
    );
}

#[test]
fn masked_display_for_meaning_quiz() {
    let v = sample(Some("食べ物"), None);
    let fields = vec![MaskableVocabField::Kanji, MaskableVocabField::Meaning];
    let m = MaskedVocab { vocab: &v, masked_field: &fields };
    assert_eq!(
        m.masked_display(),
        "\n====== Food 2 | Level 1 =====\nたべもの | Kanji: ??? | tabemono\nMeaning: ???\n"
    );
}

#[test]
fn masked_display_skips_absent_kanji() {
    let v = sample(None, None);
    let fields = vec![MaskableVocabField::Kanji, MaskableVocabField::Meaning];
    let m = MaskedVocab { vocab: &v, masked_field: &fields };
    assert_eq!(
        m.masked_display(),
        "\n====== Food 2 | Level 1 =====\nたべもの | tabemono\nMeaning: ???\n"
    );
}

#[test]
fn masked_display_with_nothing_masked_shows_all() {
    let v = sample(Some("食べ物"), None);
    let fields: Vec<MaskableVocabField> = Vec::new();
    let m = MaskedVocab { vocab: &v, masked_field: &fields };
    assert_eq!(
        m.masked_display(),
        "\n====== Food 2 | Level 1 =====\nたべもの | 食べ物 | tabemono\nMeaning: food\n"
    );
}
