use vstd::prelude::*;

use crate::category::{lemma_all_spec_index, Category, CATEGORY_COUNT};
use crate::error::StudyError;
use crate::text::{dec_spec, dec_string, push_spaces, spaces};

verus! {

/// Per-category mastery state: a level inside `1..=max_level`.
#[derive(Debug, Clone, Copy, PartialEq, Eq, Structural)]
pub struct Progress {
    pub level: u8,
    pub max_level: u8,
}

impl Progress {
    /// The invariant every progress entry keeps: `1 <= level <= max_level`.
    pub open spec fn wf(self) -> bool {
        1 <= self.level <= self.max_level
    }

    /// What `up` does: one level higher, unless already at the ceiling.
    pub open spec fn spec_up(self) -> Progress {
        if self.level >= self.max_level {
            self
        } else {
            Progress { level: (self.level + 1) as u8, max_level: self.max_level }
        }
    }

    /// What `down` does: one level lower, unless already at the floor.
    pub open spec fn spec_down(self) -> Progress {
        if self.level <= 1 {
            self
        } else {
            Progress { level: (self.level - 1) as u8, max_level: self.max_level }
        }
    }

    /// What `reset` does: back to level 1.
    pub open spec fn spec_reset(self) -> Progress {
        Progress { level: 1, max_level: self.max_level }
    }

    /// True when `up` would be a no-op; the caller then owes the user a notice.
    pub fn at_ceiling(&self) -> (r: bool)
        ensures
            r == (self.level >= self.max_level),
    {
        self.level >= self.max_level
    }

    /// True when `down` would be a no-op; the caller then owes the user a notice.
    pub fn at_floor(&self) -> (r: bool)
        ensures
            r == (self.level <= 1),
    {
        self.level <= 1
    }

    /// Raise the level by one; at the ceiling the entry is left unchanged.
    pub fn up(&mut self)
        requires
            old(self).wf(),
        ensures
            *final(self) == old(self).spec_up(),
            final(self).wf(),
    {
        if self.level < self.max_level {
            self.level = self.level + 1;
        }
    }

    /// Lower the level by one; at the floor the entry is left unchanged.
    pub fn down(&mut self)
        requires
            old(self).wf(),
        ensures
            *final(self) == old(self).spec_down(),
            final(self).wf(),
    {
        if self.level > 1 {
            self.level = self.level - 1;
        }
    }

    /// Force the level back to 1, whatever it was.
    pub fn reset(&mut self)
        requires
            old(self).wf(),
        ensures
            *final(self) == old(self).spec_reset(),
            final(self).level == 1,
            final(self).wf(),
    {
        self.level = 1;
    }
}

/// Which progress a list of `(category, progress)` pairs assigns to a
/// category, the last occurrence winning; `None` when the category never
/// occurs.
pub open spec fn lookup_pair(pairs: Seq<(Category, Progress)>, c: Category) -> Option<Progress>
    decreases pairs.len(),
{
    if pairs.len() == 0 {
        None
    } else if pairs.last().0 == c {
        Some(pairs.last().1)
    } else {
        lookup_pair(pairs.drop_last(), c)
    }
}

/// The per-category progress of the whole study tool: one entry per
/// category of the fixed enumeration, held at the category's index.
#[derive(Debug)]
pub struct ProgressStore {
    pub entries: Vec<Progress>,
}

impl ProgressStore {
    /// Total coverage, and every entry within its bounds.
    pub open spec fn wf(self) -> bool {
        &&& self.entries@.len() == CATEGORY_COUNT
        &&& forall|i: int| 0 <= i < self.entries@.len() ==> (#[trigger] self.entries@[i]).wf()
    }

    /// The entry of one category.
    pub open spec fn spec_get(self, c: Category) -> Progress {
        self.entries@[c.index_spec()]
    }

    /// Read the entry of one category.
    pub fn get(&self, c: Category) -> (r: Progress)
        requires
            self.wf(),
        ensures
            r == self.spec_get(c),
            r.wf(),
    {
        proof {
            lemma_all_spec_index();
        }
        self.entries[c.index()]
    }

    /// Build the store from the pairs a persisted file yielded.  Every
    /// category must be covered and every entry must sit within its bounds;
    /// when a category occurs twice, the last occurrence wins.
    pub fn from_pairs(pairs: &Vec<(Category, Progress)>) -> (r: Result<ProgressStore, StudyError>)
        ensures
            (r == Err::<ProgressStore, StudyError>(StudyError::InvalidProgressLevel) <==> exists|i: int|
                0 <= i < pairs@.len() && !(#[trigger] pairs@[i]).1.wf()),
            (r == Err::<ProgressStore, StudyError>(StudyError::UnknownCategoryProgress) <==> ((forall|
                i: int,
            |
                0 <= i < pairs@.len() ==> (#[trigger] pairs@[i]).1.wf()) && exists|c: Category|
                lookup_pair(pairs@, c) is None)),
            r is Ok <==> ((forall|i: int| 0 <= i < pairs@.len() ==> (#[trigger] pairs@[i]).1.wf())
                && (forall|c: Category| (#[trigger] lookup_pair(pairs@, c)) is Some)),
            r matches Ok(st) ==> st.wf() && forall|c: Category|
                Some(#[trigger] st.spec_get(c)) == lookup_pair(pairs@, c),
    {
        proof {
            lemma_all_spec_index();
        }
        let mut found: Vec<Option<Progress>> = Vec::new();
        let mut k: usize = 0;
        while k < CATEGORY_COUNT
            invariant
                k <= CATEGORY_COUNT,
                found@.len() == k,
                forall|j: int| 0 <= j < k ==> (#[trigger] found@[j]) is None,
            decreases CATEGORY_COUNT - k,
        {
            found.push(None);
            k = k + 1;
        }
        let mut i: usize = 0;
        while i < pairs.len()
            invariant
                i <= pairs@.len(),
                found@.len() == CATEGORY_COUNT,
                forall|c: Category| #[trigger] found@[c.index_spec()] == lookup_pair(
                    pairs@.take(i as int),
                    c,
                ),
                forall|j: int| 0 <= j < i ==> (#[trigger] pairs@[j]).1.wf(),
                forall|c1: Category, c2: Category|
                    c1.index_spec() == c2.index_spec() ==> c1 == c2,
            decreases pairs@.len() - i,
        {
            let (c, p) = pairs[i];
            if !(1 <= p.level && p.level <= p.max_level) {
                return Err(StudyError::InvalidProgressLevel);
            }
            found[c.index()] = Some(p);
            proof {
                assert forall|c2: Category| #[trigger] found@[c2.index_spec()] == lookup_pair(
                    pairs@.take(i + 1),
                    c2,
                ) by {
                    assert(pairs@.take(i + 1).drop_last() =~= pairs@.take(i as int));
                    assert(pairs@.take(i + 1).last() == pairs@[i as int]);
                }
            }
            i = i + 1;
        }
        proof {
            assert(pairs@.take(pairs@.len() as int) =~= pairs@);
        }
        let cats = Category::all();
        let mut entries: Vec<Progress> = Vec::new();
        let mut j: usize = 0;
        while j < CATEGORY_COUNT
            invariant
                j <= CATEGORY_COUNT,
                cats@ == Category::all_spec(),
                found@.len() == CATEGORY_COUNT,
                entries@.len() == j,
                forall|c: Category| #[trigger] found@[c.index_spec()] == lookup_pair(pairs@, c),
                forall|c: Category|
                    0 <= c.index_spec() < CATEGORY_COUNT && Category::all_spec()[c.index_spec()]
                        == c,
                forall|jj: int| 0 <= jj < j ==> Some(#[trigger] entries@[jj]) == lookup_pair(
                    pairs@,
                    Category::all_spec()[jj],
                ),
                forall|i2: int| 0 <= i2 < pairs@.len() ==> (#[trigger] pairs@[i2]).1.wf(),
            decreases CATEGORY_COUNT - j,
        {
            let c = cats[j];
            proof {
                assert(c.index_spec() == j as int);
            }
            match found[c.index()] {
                Some(p) => { entries.push(p) },
                None => {
                    return Err(StudyError::UnknownCategoryProgress);
                },
            }
            j = j + 1;
        }
        let st = ProgressStore { entries };
        proof {
            assert forall|c: Category| Some(#[trigger] st.spec_get(c)) == lookup_pair(pairs@, c) by {
                assert(Some(st.entries@[c.index_spec()]) == lookup_pair(
                    pairs@,
                    Category::all_spec()[c.index_spec()],
                ));
            }
            assert forall|c: Category| (#[trigger] lookup_pair(pairs@, c)) is Some by {
                assert(Some(st.spec_get(c)) == lookup_pair(pairs@, c));
            }
            assert forall|i2: int| 0 <= i2 < st.entries@.len() implies (#[trigger] st.entries@[i2]).wf() by {
                let c = Category::all_spec()[i2];
                assert(Some(st.entries@[c.index_spec()]) == lookup_pair(pairs@, c));
                lemma_lookup_pair_wf(pairs@, c);
            }
        }
        Ok(st)
    }

    /// The store as `(category, progress)` pairs, in enumeration order,
    /// ready to be persisted.
    pub fn to_pairs(&self) -> (r: Vec<(Category, Progress)>)
        requires
            self.wf(),
        ensures
            r@.len() == CATEGORY_COUNT,
            forall|j: int| 0 <= j < r@.len() ==> #[trigger] r@[j] == (
                Category::all_spec()[j],
                self.spec_get(Category::all_spec()[j]),
            ),
    {
        proof {
            lemma_all_spec_index();
        }
        let cats = Category::all();
        let mut r: Vec<(Category, Progress)> = Vec::new();
        let mut j: usize = 0;
        while j < CATEGORY_COUNT
            invariant
                j <= CATEGORY_COUNT,
                cats@ == Category::all_spec(),
                self.wf(),
                r@.len() == j,
                forall|c: Category|
                    0 <= c.index_spec() < CATEGORY_COUNT && Category::all_spec()[c.index_spec()]
                        == c,
                forall|jj: int| 0 <= jj < j ==> #[trigger] r@[jj] == (
                    Category::all_spec()[jj],
                    self.spec_get(Category::all_spec()[jj]),
                ),
            decreases CATEGORY_COUNT - j,
        {
            let c = cats[j];
            r.push((c, self.get(c)));
            j = j + 1;
        }
        r
    }

    /// Apply `up` to the entry of every chosen category, each at most once.
    pub fn up_all(&mut self, cats: &Vec<Category>)
        requires
            old(self).wf(),
            cats@.no_duplicates(),
        ensures
            final(self).wf(),
            forall|c: Category| #[trigger] final(self).spec_get(c) == if cats@.contains(c) {
                old(self).spec_get(c).spec_up()
            } else {
                old(self).spec_get(c)
            },
    {
        proof {
            lemma_all_spec_index();
        }
        let mut k: usize = 0;
        while k < cats.len()
            invariant
                k <= cats@.len(),
                cats@.no_duplicates(),
                self.wf(),
                forall|c1: Category, c2: Category|
                    c1.index_spec() == c2.index_spec() ==> c1 == c2,
                forall|c: Category| #[trigger] self.spec_get(c) == if cats@.take(k as int).contains(
                    c,
                ) {
                    old(self).spec_get(c).spec_up()
                } else {
                    old(self).spec_get(c)
                },
            decreases cats@.len() - k,
        {
            let ghost prev = *self;
            let c = cats[k];
            let idx = c.index();
            let mut p = self.entries[idx];
            p.up();
            self.entries[idx] = p;
            proof {
                lemma_take_step_contains(cats@, k as int);
                assert(prev.spec_get(c) == old(self).spec_get(c));
                assert(p == old(self).spec_get(c).spec_up());
                assert forall|c2: Category| #[trigger] self.spec_get(c2) == if cats@.take(
                    k + 1,
                ).contains(c2) {
                    old(self).spec_get(c2).spec_up()
                } else {
                    old(self).spec_get(c2)
                } by {
                    assert(prev.spec_get(c2) == if cats@.take(k as int).contains(c2) {
                        old(self).spec_get(c2).spec_up()
                    } else {
                        old(self).spec_get(c2)
                    });
                    if c2 == c {
                        assert(cats@.take(k + 1).contains(c2));
                        assert(self.spec_get(c2) == p);
                    } else {
                        assert(c2.index_spec() != c.index_spec());
                        assert(self.spec_get(c2) == prev.spec_get(c2));
                        assert(cats@.take(k + 1).contains(c2) == cats@.take(k as int).contains(
                            c2,
                        ));
                    }
                }
            }
            k = k + 1;
        }
        proof {
            assert(cats@.take(cats@.len() as int) =~= cats@);
        }
    }

    /// Apply `down` to the entry of every chosen category, each at most once.
    pub fn down_all(&mut self, cats: &Vec<Category>)
        requires
            old(self).wf(),
            cats@.no_duplicates(),
        ensures
            final(self).wf(),
            forall|c: Category| #[trigger] final(self).spec_get(c) == if cats@.contains(c) {
                old(self).spec_get(c).spec_down()
            } else {
                old(self).spec_get(c)
            },
    {
        proof {
            lemma_all_spec_index();
        }
        let mut k: usize = 0;
        while k < cats.len()
            invariant
                k <= cats@.len(),
                cats@.no_duplicates(),
                self.wf(),
                forall|c1: Category, c2: Category|
                    c1.index_spec() == c2.index_spec() ==> c1 == c2,
                forall|c: Category| #[trigger] self.spec_get(c) == if cats@.take(k as int).contains(
                    c,
                ) {
                    old(self).spec_get(c).spec_down()
                } else {
                    old(self).spec_get(c)
                },
            decreases cats@.len() - k,
        {
            let ghost prev = *self;
            let c = cats[k];
            let idx = c.index();
            let mut p = self.entries[idx];
            p.down();
            self.entries[idx] = p;
            proof {
                lemma_take_step_contains(cats@, k as int);
                assert(prev.spec_get(c) == old(self).spec_get(c));
                assert(p == old(self).spec_get(c).spec_down());
                assert forall|c2: Category| #[trigger] self.spec_get(c2) == if cats@.take(
                    k + 1,
                ).contains(c2) {
                    old(self).spec_get(c2).spec_down()
                } else {
                    old(self).spec_get(c2)
                } by {
                    assert(prev.spec_get(c2) == if cats@.take(k as int).contains(c2) {
                        old(self).spec_get(c2).spec_down()
                    } else {
                        old(self).spec_get(c2)
                    });
                    if c2 == c {
                        assert(cats@.take(k + 1).contains(c2));
                        assert(self.spec_get(c2) == p);
                    } else {
                        assert(c2.index_spec() != c.index_spec());
                        assert(self.spec_get(c2) == prev.spec_get(c2));
                        assert(cats@.take(k + 1).contains(c2) == cats@.take(k as int).contains(
                            c2,
                        ));
                    }
                }
            }
            k = k + 1;
        }
        proof {
            assert(cats@.take(cats@.len() as int) =~= cats@);
        }
    }

    /// Reset every category's entry to level 1.
    pub fn reset_all(&mut self)
        requires
            old(self).wf(),
        ensures
            final(self).wf(),
            forall|c: Category| #[trigger] final(self).spec_get(c) == old(self).spec_get(
                c,
            ).spec_reset(),
            forall|c: Category| (#[trigger] final(self).spec_get(c)).level == 1,
    {
        proof {
            lemma_all_spec_index();
        }
        let mut j: usize = 0;
        while j < CATEGORY_COUNT
            invariant
                j <= CATEGORY_COUNT,
                self.entries@.len() == CATEGORY_COUNT,
                old(self).wf(),
                forall|jj: int| 0 <= jj < j ==> #[trigger] self.entries@[jj] == old(
                    self,
                ).entries@[jj].spec_reset(),
                forall|jj: int| j <= jj < CATEGORY_COUNT ==> #[trigger] self.entries@[jj] == old(
                    self,
                ).entries@[jj],
            decreases CATEGORY_COUNT - j,
        {
            let mut p = self.entries[j];
            p.reset();
            self.entries[j] = p;
            j = j + 1;
        }
    }
}

/// Extending a prefix of a duplicate-free category list by its next
/// element adds exactly that element to what the prefix holds.
proof fn lemma_take_step_contains(cats: Seq<Category>, k: int)
    requires
        cats.no_duplicates(),
        0 <= k < cats.len(),
    ensures
        forall|c: Category|
            #[trigger] cats.take(k + 1).contains(c) <==> (cats.take(k).contains(c) || c
                == cats[k]),
        !cats.take(k).contains(cats[k]),
{
    assert(cats.take(k + 1)[k] == cats[k]);
    if cats.take(k).contains(cats[k]) {
        let w = choose|w: int|
            0 <= w < cats.take(k).len() && (#[trigger] cats.take(k)[w]) == cats[k];
        assert(cats[w] == cats[k]);
        assert(false);
    }
    assert forall|c: Category| #[trigger] cats.take(k + 1).contains(c) implies (cats.take(
        k,
    ).contains(c) || c == cats[k]) by {
        let w = choose|w: int|
            0 <= w < cats.take(k + 1).len() && (#[trigger] cats.take(k + 1)[w]) == c;
        if w < k {
            assert(cats.take(k)[w] == c);
        }
    }
    assert forall|c: Category| cats.take(k).contains(c) implies cats.take(k + 1).contains(c) by {
        let w = choose|w: int| 0 <= w < cats.take(k).len() && (#[trigger] cats.take(k)[w]) == c;
        assert(cats.take(k + 1)[w] == c);
    }
}

/// Whatever a pair list assigns to a category is a well-formed entry, as
/// long as every pair of the list is well-formed.
proof fn lemma_lookup_pair_wf(pairs: Seq<(Category, Progress)>, c: Category)
    requires
        forall|i: int| 0 <= i < pairs.len() ==> (#[trigger] pairs[i]).1.wf(),
        lookup_pair(pairs, c) is Some,
    ensures
        lookup_pair(pairs, c).unwrap().wf(),
    decreases pairs.len(),
{
    if pairs.len() > 0 {
        if pairs.last().0 == c {
            assert(pairs[pairs.len() - 1].1.wf());
        } else {
            lemma_lookup_pair_wf(pairs.drop_last(), c);
        }
    }
}

/// One row of the progress table: the category name padded to twelve
/// columns, then `Level l / m` with the level right-aligned to two columns.
pub open spec fn progress_row_spec(store: ProgressStore, c: Category) -> Seq<char> {
    let level_text = dec_spec(store.spec_get(c).level as nat);
    c.name_spec() + (if c.name_spec().len() < 12 {
        spaces((12 - c.name_spec().len()) as nat)
    } else {
        Seq::<char>::empty()
    }) + "  Level "@ + (if level_text.len() < 2 {
        spaces((2 - level_text.len()) as nat)
    } else {
        Seq::<char>::empty()
    }) + level_text + " / "@ + dec_spec(store.spec_get(c).max_level as nat) + "\n"@
}

/// The first `j` rows of the progress table, in enumeration order.
pub open spec fn progress_rows_upto(store: ProgressStore, j: nat) -> Seq<char>
    decreases j,
{
    if j == 0 {
        Seq::empty()
    } else {
        progress_rows_upto(store, (j - 1) as nat) + progress_row_spec(
            store,
            Category::all_spec()[j - 1],
        )
    }
}

/// The whole progress table: a header line, then one row per category.
pub open spec fn display_progress_spec(store: ProgressStore) -> Seq<char> {
    "=== Current progress ===\n"@ + progress_rows_upto(store, CATEGORY_COUNT as nat)
}

/// Append one row of the progress table.
#[verifier::rlimit(80)]
fn push_progress_row(out: &mut String, store: &ProgressStore, c: Category)
    requires
        store.wf(),
    ensures
        final(out)@ == old(out)@ + progress_row_spec(*store, c),
{
    let name = c.display();
    out.append(name.as_str());
    let name_len = name.as_str().unicode_len();
    if name_len < 12 {
        push_spaces(out, 12 - name_len);
    }
    out.append("  Level ");
    let p = store.get(c);
    let level_text = dec_string(p.level as u16);
    let level_len = level_text.as_str().unicode_len();
    if level_len < 2 {
        push_spaces(out, 2 - level_len);
    }
    out.append(level_text.as_str());
    out.append(" / ");
    let max_text = dec_string(p.max_level as u16);
    out.append(max_text.as_str());
    out.append("\n");
    proof {
        assert(out@ =~= old(out)@ + progress_row_spec(*store, c));
    }
}

/// Render the progress table of every category.
pub fn display_progress(store: &ProgressStore) -> (r: String)
    requires
        store.wf(),
    ensures
        r@ == display_progress_spec(*store),
{
    let cats = Category::all();
    let mut out = String::new();
    out.append("=== Current progress ===\n");
    let mut j: usize = 0;
    while j < CATEGORY_COUNT
        invariant
            j <= CATEGORY_COUNT,
            store.wf(),
            cats@ == Category::all_spec(),
            out@ == "=== Current progress ===\n"@ + progress_rows_upto(*store, j as nat),
        decreases CATEGORY_COUNT - j,
    {
        let c = cats[j];
        push_progress_row(&mut out, store, c);
        proof {
            assert(progress_rows_upto(*store, (j + 1) as nat) == progress_rows_upto(
                *store,
                j as nat,
            ) + progress_row_spec(*store, c));
            assert(out@ =~= "=== Current progress ===\n"@ + progress_rows_upto(
                *store,
                (j + 1) as nat,
            ));
        }
        j = j + 1;
    }
    out
}

/// Every mutation keeps the level inside `1..=max_level`, so an entry
/// produced by any sequence of `up`, `down` and `reset` steps stays inside
/// those bounds; and `reset` yields level 1 whatever the starting level.
pub proof fn lemma_mutations_preserve_bounds(p: Progress)
    requires
        p.wf(),
    ensures
        p.spec_up().wf(),
        p.spec_down().wf(),
        p.spec_reset().wf(),
        p.spec_reset().level == 1,
{
}

/// An `up` followed by a `down` restores the level, for any level strictly
/// between the floor and the ceiling.
pub proof fn lemma_up_then_down_restores(p: Progress)
    requires
        p.wf(),
        1 < p.level < p.max_level,
    ensures
        p.spec_up().spec_down() == p,
{
}

/// At the ceiling, `up` leaves the entry unchanged.
pub proof fn lemma_up_at_ceiling(p: Progress)
    requires
        p.wf(),
        p.level == p.max_level,
    ensures
        p.spec_up() == p,
{
}

/// At the floor, `down` leaves the entry unchanged.
pub proof fn lemma_down_at_floor(p: Progress)
    requires
        p.wf(),
        p.level == 1,
    ensures
        p.spec_down() == p,
{
}

} // verus!
