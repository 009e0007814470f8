use vstd::prelude::*;
use vstd::seq_lib::group_seq_properties;

use crate::category::Category;
use crate::progress::ProgressStore;
use crate::vocab::Vocab;

verus! {

/// Whether one entry passes the filter policy: its category is among the
/// chosen ones, it has a kanji form when one is required, and its level is
/// within the category's progress unless progress is ignored.
pub open spec fn filter_pred(
    v: Vocab,
    cats: Seq<Category>,
    store: ProgressStore,
    require_kanji: bool,
    ignore_progress: bool,
) -> bool {
    &&& cats.contains(v.category)
    &&& (require_kanji ==> v.kanji is Some)
    &&& (!ignore_progress ==> v.level <= store.spec_get(v.category).level)
}

/// The corpus narrowed to the entries that pass the policy, in input order.
pub open spec fn filter_db_spec(
    db: Seq<Vocab>,
    cats: Seq<Category>,
    store: ProgressStore,
    require_kanji: bool,
    ignore_progress: bool,
) -> Seq<Vocab> {
    db.filter(|v: Vocab| filter_pred(v, cats, store, require_kanji, ignore_progress))
}

/// Whether a category list holds a given category.
pub fn contains_cat(cats: &Vec<Category>, c: Category) -> (r: bool)
    ensures
        r == cats@.contains(c),
{
    let mut i: usize = 0;
    while i < cats.len()
        invariant
            i <= cats@.len(),
            forall|j: int| 0 <= j < i ==> cats@[j] != c,
        decreases cats@.len() - i,
    {
        if cats[i] == c {
            return true;
        }
        i = i + 1;
    }
    proof {
        if cats@.contains(c) {
            let w = choose|w: int| 0 <= w < cats@.len() && cats@[w] == c;
            assert(false);
        }
    }
    false
}

/// Filtering a one-entry corpus keeps or drops that entry.
proof fn lemma_filter_singleton<A>(x: A, pred: spec_fn(A) -> bool)
    ensures
        seq![x].filter(pred) == if pred(x) {
            seq![x]
        } else {
            Seq::<A>::empty()
        },
{
    reveal(Seq::filter);
    assert(seq![x].drop_last() =~= Seq::<A>::empty());
    assert(Seq::<A>::empty().filter(pred) =~= Seq::<A>::empty());
    if pred(x) {
        assert(seq![x].filter(pred) =~= seq![x]);
    } else {
        assert(seq![x].filter(pred) =~= Seq::<A>::empty());
    }
}

/// Narrow a corpus by chosen categories, kanji availability and progress
/// ceiling.  The result is exactly the stable filter of the input.
pub fn filter_db(
    db: Vec<Vocab>,
    cats: Vec<Category>,
    current_progress: &ProgressStore,
    kanji: &bool,
    ignore_progress: &bool,
) -> (r: Vec<Vocab>)
    requires
        current_progress.wf(),
    ensures
        r@ == filter_db_spec(db@, cats@, *current_progress, *kanji, *ignore_progress),
{
    broadcast use group_seq_properties;

    let ghost orig = db@;
    let ghost pred = |v: Vocab| filter_pred(v, cats@, *current_progress, *kanji, *ignore_progress);
    let mut rest = db;
    let mut r: Vec<Vocab> = Vec::new();
    let ghost mut i: int = 0;
    proof {
        assert(orig.take(0) =~= Seq::<Vocab>::empty());
        assert(Seq::<Vocab>::empty().filter(pred) =~= Seq::<Vocab>::empty()) by {
            reveal(Seq::filter);
        }
        assert(orig.skip(0) =~= orig);
    }
    while rest.len() > 0
        invariant
            0 <= i <= orig.len(),
            rest@ == orig.skip(i),
            r@ == orig.take(i).filter(pred),
            current_progress.wf(),
            pred == |v: Vocab| filter_pred(v, cats@, *current_progress, *kanji, *ignore_progress),
        decreases rest@.len(),
    {
        let v = rest.remove(0);
        proof {
            assert(orig.skip(i)[0] == orig[i]);
            assert(orig.skip(i).drop_first() =~= orig.skip(i + 1));
        }
        let passes_cat = contains_cat(&cats, v.category);
        let passes_kanji = if *kanji {
            v.kanji.is_some()
        } else {
            true
        };
        let passes_level = if *ignore_progress {
            true
        } else {
            v.level <= current_progress.get(v.category).level
        };
        let ghost r_before = r@;
        if passes_cat && passes_kanji && passes_level {
            r.push(v);
        }
        proof {
            assert(orig.take(i + 1) =~= orig.take(i) + seq![orig[i]]);
            Seq::<Vocab>::filter_distributes_over_add(orig.take(i), seq![orig[i]], pred);
            lemma_filter_singleton(orig[i], pred);
            if pred(orig[i]) {
                assert(r@ =~= orig.take(i).filter(pred) + seq![orig[i]]);
            } else {
                assert(r@ =~= orig.take(i).filter(pred) + Seq::<Vocab>::empty());
            }
            i = i + 1;
        }
    }
    proof {
        assert(orig.skip(i).len() == 0);
        assert(i == orig.len());
        assert(orig.take(i) =~= orig);
    }
    r
}

/// `s` can be had from `t` by deleting entries, keeping the order.
pub open spec fn subsequence_of<A>(s: Seq<A>, t: Seq<A>) -> bool
    decreases t.len(),
{
    if s.len() == 0 {
        true
    } else if t.len() == 0 {
        false
    } else if s.last() == t.last() {
        subsequence_of(s.drop_last(), t.drop_last())
    } else {
        subsequence_of(s, t.drop_last())
    }
}

/// Deleting the last entry of a subsequence keeps it a subsequence.
proof fn lemma_subsequence_drop_last<A>(s: Seq<A>, t: Seq<A>)
    requires
        subsequence_of(s, t),
        s.len() > 0,
    ensures
        subsequence_of(s.drop_last(), t),
    decreases t.len(),
{
    let sd = s.drop_last();
    if s.last() == t.last() {
        if sd.len() == 0 {
        } else if sd.last() == t.last() {
            lemma_subsequence_drop_last(sd, t.drop_last());
            assert(sd.drop_last() == s.drop_last().drop_last());
        } else {
        }
    } else {
        lemma_subsequence_drop_last(s, t.drop_last());
        if sd.len() == 0 {
        } else if sd.last() == t.last() {
            lemma_subsequence_drop_last(sd, t.drop_last());
        } else {
        }
    }
}

/// What a filter keeps is a subsequence of the input.
proof fn lemma_filter_subsequence<A>(s: Seq<A>, pred: spec_fn(A) -> bool)
    ensures
        subsequence_of(s.filter(pred), s),
    decreases s.len(),
{
    reveal(Seq::filter);
    if s.len() == 0 {
        assert(s.filter(pred) =~= Seq::<A>::empty());
    } else {
        let sub = s.drop_last();
        lemma_filter_subsequence(sub, pred);
        let f = s.filter(pred);
        if pred(s.last()) {
            assert(f == sub.filter(pred).push(s.last()));
            assert(f.last() == s.last());
            assert(f.drop_last() =~= sub.filter(pred));
        } else {
            assert(f == sub.filter(pred));
            if f.len() == 0 {
            } else if f.last() == s.last() {
                lemma_subsequence_drop_last(f, sub);
            } else {
            }
        }
    }
}

/// Every entry a filter keeps stood in the input and passes the policy.
proof fn lemma_filter_membership<A>(s: Seq<A>, pred: spec_fn(A) -> bool)
    ensures
        forall|x: A| #[trigger] s.filter(pred).contains(x) ==> s.contains(x) && pred(x),
    decreases s.len(),
{
    reveal(Seq::filter);
    if s.len() == 0 {
        assert(s.filter(pred) =~= Seq::<A>::empty());
        assert forall|x: A| #[trigger] s.filter(pred).contains(x) implies s.contains(x) && pred(
            x,
        ) by {
            let w = choose|w: int| 0 <= w < s.filter(pred).len() && s.filter(pred)[w] == x;
        }
    } else {
        let sub = s.drop_last();
        lemma_filter_membership(sub, pred);
        assert forall|x: A| #[trigger] s.filter(pred).contains(x) implies s.contains(x) && pred(
            x,
        ) by {
            if pred(s.last()) {
                assert(s.filter(pred) == sub.filter(pred).push(s.last()));
                let w = choose|w: int| 0 <= w < s.filter(pred).len() && s.filter(pred)[w] == x;
                if w < s.filter(pred).len() - 1 {
                    assert(sub.filter(pred)[w] == x);
                    assert(sub.filter(pred).contains(x));
                    let w2 = choose|w2: int| 0 <= w2 < sub.len() && sub[w2] == x;
                    assert(s[w2] == x);
                } else {
                    assert(x == s.last());
                    assert(s[s.len() - 1] == x);
                }
            } else {
                assert(s.filter(pred) == sub.filter(pred));
                assert(sub.filter(pred).contains(x));
                let w2 = choose|w2: int| 0 <= w2 < sub.len() && sub[w2] == x;
                assert(s[w2] == x);
            }
        }
    }
}

/// Filtering twice with the same policy changes nothing the second time.
proof fn lemma_filter_idempotent<A>(s: Seq<A>, pred: spec_fn(A) -> bool)
    ensures
        s.filter(pred).filter(pred) == s.filter(pred),
    decreases s.len(),
{
    reveal(Seq::filter);
    if s.len() == 0 {
        assert(s.filter(pred) =~= Seq::<A>::empty());
        assert(s.filter(pred).filter(pred) =~= Seq::<A>::empty());
    } else {
        let sub = s.drop_last();
        lemma_filter_idempotent(sub, pred);
        if pred(s.last()) {
            assert(s.filter(pred) == sub.filter(pred).push(s.last()));
            assert(s.filter(pred).drop_last() =~= sub.filter(pred));
            assert(s.filter(pred).last() == s.last());
            assert(s.filter(pred).filter(pred) == sub.filter(pred).filter(pred).push(s.last()));
        } else {
            assert(s.filter(pred) == sub.filter(pred));
        }
    }
}

/// Filtering is idempotent: filtering an already-filtered corpus with the
/// same categories, kanji requirement and progress yields the same corpus.
pub proof fn lemma_filter_db_idempotent(
    db: Seq<Vocab>,
    cats: Seq<Category>,
    store: ProgressStore,
    require_kanji: bool,
    ignore_progress: bool,
)
    ensures
        filter_db_spec(
            filter_db_spec(db, cats, store, require_kanji, ignore_progress),
            cats,
            store,
            require_kanji,
            ignore_progress,
        ) == filter_db_spec(db, cats, store, require_kanji, ignore_progress),
{
    lemma_filter_idempotent(db, |v: Vocab| filter_pred(v, cats, store, require_kanji, ignore_progress));
}

/// Filtering preserves the input order — the result is a subsequence of
/// the corpus — and never introduces an entry absent from the corpus.
pub proof fn lemma_filter_db_stable(
    db: Seq<Vocab>,
    cats: Seq<Category>,
    store: ProgressStore,
    require_kanji: bool,
    ignore_progress: bool,
)
    ensures
        subsequence_of(filter_db_spec(db, cats, store, require_kanji, ignore_progress), db),
        forall|v: Vocab| #[trigger] filter_db_spec(
            db,
            cats,
            store,
            require_kanji,
            ignore_progress,
        ).contains(v) ==> db.contains(v),
{
    let pred = |v: Vocab| filter_pred(v, cats, store, require_kanji, ignore_progress);
    lemma_filter_subsequence(db, pred);
    lemma_filter_membership(db, pred);
}

} // verus!
