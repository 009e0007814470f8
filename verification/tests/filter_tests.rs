use japanki::category::Category;
use japanki::filter::filter_db;
use japanki::progress::{Progress, ProgressStore};
use japanki::vocab::Vocab;

fn entry(level: u8, order: u16, category: Category, kanji: Option<&str>) -> Vocab {
    Vocab {
        level,
        order,
        category,
        hiragana: format!("hira{}", order),
        kanji: kanji.map(|k| k.to_string()),
        romaji: format!("romaji{}", order),
        meaning: format!("meaning{}", order),
        example: None,
    }
}

fn store_all_at(level: u8) -> ProgressStore {
    let pairs: Vec<(Category, Progress)> = Category::all()
        .into_iter()
        .map(|c| (c, Progress { level, max_level: 10 }))
        .collect();
    ProgressStore::from_pairs(&pairs).unwrap()
}

fn food_corpus() -> Vec<Vocab> {
    vec![
        entry(1, 1, Category::Food, Some("k1")),
        entry(2, 2, Category::Food, Some("k2")),
        entry(3, 3, Category::Food, Some("k3")),
    ]
}

#[test]
fn progress_ceiling_keeps_low_levels_in_order() {
    let store = store_all_at(2);
    let r = filter_db(food_corpus(), vec![Category::Food], &store, &false, &false);
    assert_eq!(r.len(), 2);
    assert_eq!(r[0].order, 1);
    assert_eq!(r[1].order, 2);
}

#[test]
fn ignore_progress_keeps_all_levels() {
    let store = store_all_at(2);
    let r = filter_db(food_corpus(), vec![Category::Food], &store, &false, &true);
    assert_eq!(r.len(), 3);
    assert_eq!(r[2].order, 3);
}

#[test]
fn kanji_requirement_excludes_entries_without_kanji() {
    let store = store_all_at(10);
    let db = vec![
        entry(1, 1, Category::Food, None),
        entry(1, 2, Category::Food, Some("k")),
    ];
    let r = filter_db(db.clone(), vec![Category::Food], &store, &true, &false);
    assert_eq!(r.len(), 1);
    assert_eq!(r[0].order, 2);
    let r = filter_db(db, vec![Category::Food], &store, &false, &false);
    assert_eq!(r.len(), 2);
}

#[test]
fn category_selection_excludes_other_categories() {
    let store = store_all_at(10);
    let db = vec![
        entry(1, 1, Category::Food, None),
        entry(1, 2, Category::Verb, None),
        entry(1, 3, Category::Food, None),
    ];
    let r = filter_db(db, vec![Category::Verb], &store, &false, &false);
    assert_eq!(r.len(), 1);
    assert_eq!(r[0].order, 2);
}

#[test]
fn no_matching_entries_gives_empty_result() {
    let store = store_all_at(10);
    let r = filter_db(food_corpus(), vec![Category::Time], &store, &false, &false);
    assert!(r.is_empty());
}

#[test]
fn filtering_twice_gives_the_same_result() {
    let store = store_all_at(2);
    let db = vec![
        entry(1, 1, Category::Food, Some("k")),
        entry(3, 2, Category::Food, None),
        entry(2, 3, Category::Verb, Some("k")),
        entry(1, 4, Category::Food, None),
    ];
    let cats = vec![Category::Food, Category::Verb];
    let once = filter_db(db, cats.clone(), &store, &false, &false);
    let twice = filter_db(once.clone(), cats, &store, &false, &false);
    assert_eq!(once, twice);
}

#[test]
fn filter_preserves_order_and_introduces_nothing() {
    let store = store_all_at(5);
    let db = vec![
        entry(1, 10, Category::Food, None),
        entry(9, 11, Category::Verb, None),
        entry(2, 12, Category::Verb, None),
        entry(1, 13, Category::Time, None),
        entry(3, 14, Category::Food, None),
    ];
    let r = filter_db(
        db.clone(),
        vec![Category::Food, Category::Verb],
        &store,
        &false,
        &false,
    );
    let orders: Vec<u16> = r.iter().map(|v| v.order).collect();
    assert_eq!(orders, vec![10, 12, 14]);
    for v in &r {
        assert!(db.contains(v));
    }
}
