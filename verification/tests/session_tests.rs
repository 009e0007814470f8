use japanki::category::Category;
use japanki::error::StudyError;
use japanki::session::{quiz_random_meaning, quiz_random_romaji, QuizFeedback, ShowSession};
use japanki::vocab::Vocab;

fn entry(order: u16, romaji: &str, meaning: &str) -> Vocab {
    Vocab {
        level: 1,
        order,
        category: Category::Food,
        hiragana: format!("hira{}", order),
        kanji: None,
        romaji: romaji.to_string(),
        meaning: meaning.to_string(),
        example: None,
    }
}

#[test]
fn empty_selection_is_reported_for_show() {
    let r = ShowSession::new(Vec::new());
    assert!(matches!(r, Err(StudyError::EmptySelection)));
}

#[test]
fn empty_selection_is_reported_for_both_quiz_variants() {
    assert!(matches!(
        quiz_random_meaning(Vec::new()),
        Err(StudyError::EmptySelection)
    ));
    assert!(matches!(
        quiz_random_romaji(Vec::new()),
        Err(StudyError::EmptySelection)
    ));
}

#[test]
fn show_session_counts_candidates() {
    let s = ShowSession::new(vec![entry(1, "a", "m"), entry(2, "b", "n")]).unwrap();
    assert_eq!(s.count(), 2);
}

#[test]
fn show_draw_renders_one_of_the_cards() {
    let vocabs = vec![entry(1, "a", "m"), entry(2, "b", "n"), entry(3, "c", "o")];
    let cards: Vec<String> = vocabs.iter().map(|v| v.full_display()).collect();
    let s = ShowSession::new(vocabs).unwrap();
    for _ in 0..50 {
        let card = s.draw();
        assert!(cards.contains(&card));
    }
}

#[test]
fn show_draw_of_singleton_is_its_full_card() {
    let v = entry(9, "kao", "face");
    let expected = v.full_display();
    let s = ShowSession::new(vec![v]).unwrap();
    assert_eq!(s.draw(), expected);
}

#[test]
fn quiz_draw_stays_in_range() {
    let s = quiz_random_romaji(vec![entry(1, "a", "m"), entry(2, "b", "n")]).unwrap();
    for _ in 0..50 {
        assert!(s.draw() < s.count());
    }
}

#[test]
fn romaji_question_masks_hiragana_and_romaji() {
    let s = quiz_random_romaji(vec![entry(4, "kao", "face")]).unwrap();
    assert_eq!(
        s.question(0),
        "\n====== Food 4 | Level 1 =====\nHiragana: ??? | Romaji: ???\nMeaning: face\n"
    );
}

#[test]
fn meaning_question_masks_kanji_and_meaning() {
    let s = quiz_random_meaning(vec![entry(4, "kao", "face")]).unwrap();
    assert_eq!(
        s.question(0),
        "\n====== Food 4 | Level 1 =====\nhira4 | kao\nMeaning: ???\n"
    );
}

#[test]
fn meaning_check_reveals_the_meaning() {
    let s = quiz_random_meaning(vec![entry(4, "kao", "face")]).unwrap();
    let f = s.check(0, "whatever the user typed");
    assert_eq!(
        f,
        QuizFeedback::Meaning { answer: "face".to_string() }
    );
}

#[test]
fn romaji_check_accepts_normalized_spelling() {
    let s = quiz_random_romaji(vec![entry(4, "ohayou", "good morning")]).unwrap();
    match s.check(0, "Ohayou!") {
        QuizFeedback::Romaji { correct, short } => {
            assert!(correct);
            assert_eq!(short, "hira4 | ohayou");
        }
        other => panic!("unexpected feedback {:?}", other),
    }
}

#[test]
fn romaji_check_rejects_wrong_answer() {
    let s = quiz_random_romaji(vec![entry(4, "ohayou", "good morning")]).unwrap();
    match s.check(0, "konbanwa") {
        QuizFeedback::Romaji { correct, short } => {
            assert!(!correct);
            assert_eq!(short, "hira4 | ohayou");
        }
        other => panic!("unexpected feedback {:?}", other),
    }
}
