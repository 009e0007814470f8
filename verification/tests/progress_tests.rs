use japanki::category::Category;
use japanki::error::StudyError;
use japanki::progress::{display_progress, Progress, ProgressStore};

fn full_pairs(level: u8, max_level: u8) -> Vec<(Category, Progress)> {
    Category::all()
        .into_iter()
        .map(|c| (c, Progress { level, max_level }))
        .collect()
}

#[test]
fn up_mid_level() {
    let mut p = Progress { level: 2, max_level: 10 };
    p.up();
    assert_eq!(p.level, 3);
    assert_eq!(p.max_level, 10);
}

#[test]
fn up_at_ceiling_is_no_op() {
    let mut p = Progress { level: 10, max_level: 10 };
    assert!(p.at_ceiling());
    p.up();
    assert_eq!(p.level, 10);
}

#[test]
fn down_mid_level() {
    let mut p = Progress { level: 3, max_level: 10 };
    p.down();
    assert_eq!(p.level, 2);
}

#[test]
fn down_at_floor_is_no_op() {
    let mut p = Progress { level: 1, max_level: 10 };
    assert!(p.at_floor());
    p.down();
    assert_eq!(p.level, 1);
}

#[test]
fn reset_from_any_level() {
    let mut p = Progress { level: 7, max_level: 10 };
    p.reset();
    assert_eq!(p.level, 1);
    let mut q = Progress { level: 1, max_level: 10 };
    q.reset();
    assert_eq!(q.level, 1);
}

#[test]
fn up_then_down_restores_level() {
    for start in 2u8..10 {
        let mut p = Progress { level: start, max_level: 10 };
        p.up();
        p.down();
        assert_eq!(p.level, start);
    }
}

#[test]
fn any_sequence_keeps_level_in_bounds() {
    let mut p = Progress { level: 1, max_level: 3 };
    let ops = [0u8, 0, 0, 0, 1, 2, 1, 1, 1, 0, 2, 0, 1];
    for op in ops {
        match op {
            0 => p.up(),
            1 => p.down(),
            _ => p.reset(),
        }
        assert!(1 <= p.level && p.level <= p.max_level);
    }
}

#[test]
fn from_pairs_complete_store() {
    let pairs = full_pairs(2, 10);
    let store = ProgressStore::from_pairs(&pairs).unwrap();
    assert_eq!(store.get(Category::Food).level, 2);
    assert_eq!(store.get(Category::Sentence).max_level, 10);
}

#[test]
fn from_pairs_missing_category_is_rejected() {
    let mut pairs = full_pairs(1, 10);
    pairs.retain(|(c, _)| *c != Category::Verb);
    assert!(matches!(
        ProgressStore::from_pairs(&pairs),
        Err(StudyError::UnknownCategoryProgress)
    ));
}

#[test]
fn from_pairs_bad_level_is_rejected() {
    let mut pairs = full_pairs(1, 10);
    pairs[3].1.level = 0;
    assert!(matches!(
        ProgressStore::from_pairs(&pairs),
        Err(StudyError::InvalidProgressLevel)
    ));
    let mut pairs = full_pairs(1, 10);
    pairs[5].1.level = 11;
    assert!(matches!(
        ProgressStore::from_pairs(&pairs),
        Err(StudyError::InvalidProgressLevel)
    ));
}

#[test]
fn from_pairs_last_occurrence_wins() {
    let mut pairs = full_pairs(1, 10);
    pairs.push((Category::Food, Progress { level: 5, max_level: 10 }));
    let store = ProgressStore::from_pairs(&pairs).unwrap();
    assert_eq!(store.get(Category::Food).level, 5);
    assert_eq!(store.get(Category::Unit).level, 1);
}

#[test]
fn up_all_touches_only_chosen_categories() {
    let pairs = full_pairs(2, 10);
    let mut store = ProgressStore::from_pairs(&pairs).unwrap();
    store.up_all(&vec![Category::Food, Category::Verb]);
    assert_eq!(store.get(Category::Food).level, 3);
    assert_eq!(store.get(Category::Verb).level, 3);
    assert_eq!(store.get(Category::Unit).level, 2);
}

#[test]
fn down_all_touches_only_chosen_categories() {
    let pairs = full_pairs(2, 10);
    let mut store = ProgressStore::from_pairs(&pairs).unwrap();
    store.down_all(&vec![Category::Time]);
    assert_eq!(store.get(Category::Time).level, 1);
    assert_eq!(store.get(Category::Food).level, 2);
}

#[test]
fn reset_all_sets_every_level_to_one() {
    let pairs = full_pairs(7, 10);
    let mut store = ProgressStore::from_pairs(&pairs).unwrap();
    store.reset_all();
    for c in Category::all() {
        assert_eq!(store.get(c).level, 1);
        assert_eq!(store.get(c).max_level, 10);
    }
}

#[test]
fn to_pairs_round_trip() {
    let pairs = full_pairs(4, 9);
    let store = ProgressStore::from_pairs(&pairs).unwrap();
    let out = store.to_pairs();
    assert_eq!(out.len(), 20);
    assert_eq!(out[0].0, Category::Unit);
    for (c, p) in out {
        assert_eq!(p, Progress { level: 4, max_level: 9 });
        assert_eq!(store.get(c), p);
    }
}

#[test]
fn display_progress_format() {
    let pairs = full_pairs(2, 10);
    let store = ProgressStore::from_pairs(&pairs).unwrap();
    let text = display_progress(&store);
    assert!(text.starts_with("=== Current progress ===\nUnit          Level  2 / 10\n"));
    assert!(text.contains("\nSentence      Level  2 / 10\n"));
    assert_eq!(text.lines().count(), 21);
}

#[test]
fn display_progress_wide_level_is_not_padded() {
    let mut pairs = full_pairs(2, 255);
    for (_, p) in pairs.iter_mut() {
        p.level = 100;
    }
    let store = ProgressStore::from_pairs(&pairs).unwrap();
    let text = display_progress(&store);
    assert!(text.contains("\nAtomic        Level 100 / 255\n"));
}
