use vstd::prelude::*;

use crate::error::StudyError;

verus! {

/// How many categories the fixed enumeration holds.
pub const CATEGORY_COUNT: usize = 20;

/// The closed set of vocabulary topic tags, in their fixed enumeration order.
#[derive(Debug, Clone, Copy, PartialEq, Eq, Hash, Structural)]
pub enum Category {
    Unit,
    Atomic,
    Time,
    People,
    Places,
    Verb,
    Adjadv,
    Color,
    Direction,
    Nature,
    Food,
    Body,
    Home,
    Intangible,
    Activity,
    Wearables,
    Manmade,
    Stationery,
    Transport,
    Sentence,
}

/// ASCII case folding of one character; anything but `A..=Z` is unchanged.
pub open spec fn lower_char(c: char) -> char {
    if 65 <= (c as u32) && (c as u32) <= 90 {
        (((c as u8) + 32) as u8) as char
    } else {
        c
    }
}

/// ASCII case folding of a whole text.
pub open spec fn lower_seq(s: Seq<char>) -> Seq<char> {
    s.map_values(|c: char| lower_char(c))
}

impl Category {
    /// The canonical display name of a category.
    pub open spec fn name_spec(self) -> Seq<char> {
        match self {
            Category::Unit => "Unit"@,
            Category::Atomic => "Atomic"@,
            Category::Time => "Time"@,
            Category::People => "People"@,
            Category::Places => "Places"@,
            Category::Verb => "Verb"@,
            Category::Adjadv => "Adjadv"@,
            Category::Color => "Color"@,
            Category::Direction => "Direction"@,
            Category::Nature => "Nature"@,
            Category::Food => "Food"@,
            Category::Body => "Body"@,
            Category::Home => "Home"@,
            Category::Intangible => "Intangible"@,
            Category::Activity => "Activity"@,
            Category::Wearables => "Wearables"@,
            Category::Manmade => "Manmade"@,
            Category::Stationery => "Stationery"@,
            Category::Transport => "Transport"@,
            Category::Sentence => "Sentence"@,
        }
    }

    /// The position of a category in the fixed enumeration order.
    pub open spec fn index_spec(self) -> int {
        match self {
            Category::Unit => 0,
            Category::Atomic => 1,
            Category::Time => 2,
            Category::People => 3,
            Category::Places => 4,
            Category::Verb => 5,
            Category::Adjadv => 6,
            Category::Color => 7,
            Category::Direction => 8,
            Category::Nature => 9,
            Category::Food => 10,
            Category::Body => 11,
            Category::Home => 12,
            Category::Intangible => 13,
            Category::Activity => 14,
            Category::Wearables => 15,
            Category::Manmade => 16,
            Category::Stationery => 17,
            Category::Transport => 18,
            Category::Sentence => 19,
        }
    }

    /// The fixed enumeration, in declaration order.
    pub open spec fn all_spec() -> Seq<Category> {
        seq![
            Category::Unit,
            Category::Atomic,
            Category::Time,
            Category::People,
            Category::Places,
            Category::Verb,
            Category::Adjadv,
            Category::Color,
            Category::Direction,
            Category::Nature,
            Category::Food,
            Category::Body,
            Category::Home,
            Category::Intangible,
            Category::Activity,
            Category::Wearables,
            Category::Manmade,
            Category::Stationery,
            Category::Transport,
            Category::Sentence,
        ]
    }

    /// Which category a text names, compared ASCII-case-insensitively
    /// against the canonical names; `None` when it names none.
    pub open spec fn parse_spec(s: Seq<char>) -> Option<Category> {
        if lower_seq(s) == lower_seq(Category::Unit.name_spec()) {
            Some(Category::Unit)
        } else if lower_seq(s) == lower_seq(Category::Atomic.name_spec()) {
            Some(Category::Atomic)
        } else if lower_seq(s) == lower_seq(Category::Time.name_spec()) {
            Some(Category::Time)
        } else if lower_seq(s) == lower_seq(Category::People.name_spec()) {
            Some(Category::People)
        } else if lower_seq(s) == lower_seq(Category::Places.name_spec()) {
            Some(Category::Places)
        } else if lower_seq(s) == lower_seq(Category::Verb.name_spec()) {
            Some(Category::Verb)
        } else if lower_seq(s) == lower_seq(Category::Adjadv.name_spec()) {
            Some(Category::Adjadv)
        } else if lower_seq(s) == lower_seq(Category::Color.name_spec()) {
            Some(Category::Color)
        } else if lower_seq(s) == lower_seq(Category::Direction.name_spec()) {
            Some(Category::Direction)
        } else if lower_seq(s) == lower_seq(Category::Nature.name_spec()) {
            Some(Category::Nature)
        } else if lower_seq(s) == lower_seq(Category::Food.name_spec()) {
            Some(Category::Food)
        } else if lower_seq(s) == lower_seq(Category::Body.name_spec()) {
            Some(Category::Body)
        } else if lower_seq(s) == lower_seq(Category::Home.name_spec()) {
            Some(Category::Home)
        } else if lower_seq(s) == lower_seq(Category::Intangible.name_spec()) {
            Some(Category::Intangible)
        } else if lower_seq(s) == lower_seq(Category::Activity.name_spec()) {
            Some(Category::Activity)
        } else if lower_seq(s) == lower_seq(Category::Wearables.name_spec()) {
            Some(Category::Wearables)
        } else if lower_seq(s) == lower_seq(Category::Manmade.name_spec()) {
            Some(Category::Manmade)
        } else if lower_seq(s) == lower_seq(Category::Stationery.name_spec()) {
            Some(Category::Stationery)
        } else if lower_seq(s) == lower_seq(Category::Transport.name_spec()) {
            Some(Category::Transport)
        } else if lower_seq(s) == lower_seq(Category::Sentence.name_spec()) {
            Some(Category::Sentence)
        } else {
            None
        }
    }

    /// Exec mirror of `index_spec`.
    pub fn index(self) -> (r: usize)
        ensures
            r == self.index_spec(),
            r < CATEGORY_COUNT,
    {
        match self {
            Category::Unit => 0,
            Category::Atomic => 1,
            Category::Time => 2,
            Category::People => 3,
            Category::Places => 4,
            Category::Verb => 5,
            Category::Adjadv => 6,
            Category::Color => 7,
            Category::Direction => 8,
            Category::Nature => 9,
            Category::Food => 10,
            Category::Body => 11,
            Category::Home => 12,
            Category::Intangible => 13,
            Category::Activity => 14,
            Category::Wearables => 15,
            Category::Manmade => 16,
            Category::Stationery => 17,
            Category::Transport => 18,
            Category::Sentence => 19,
        }
    }

    /// All categories, in the fixed enumeration order.
    pub fn all() -> (r: Vec<Category>)
        ensures
            r@ == Category::all_spec(),
    {
        let mut r: Vec<Category> = Vec::new();
        r.push(Category::Unit);
        r.push(Category::Atomic);
        r.push(Category::Time);
        r.push(Category::People);
        r.push(Category::Places);
        r.push(Category::Verb);
        r.push(Category::Adjadv);
        r.push(Category::Color);
        r.push(Category::Direction);
        r.push(Category::Nature);
        r.push(Category::Food);
        r.push(Category::Body);
        r.push(Category::Home);
        r.push(Category::Intangible);
        r.push(Category::Activity);
        r.push(Category::Wearables);
        r.push(Category::Manmade);
        r.push(Category::Stationery);
        r.push(Category::Transport);
        r.push(Category::Sentence);
        proof {
            assert(r@ =~= Category::all_spec());
        }
        r
    }

    /// The canonical capitalized name.
    pub fn display(self) -> (r: String)
        ensures
            r@ == self.name_spec(),
    {
        match self {
            Category::Unit => "Unit".to_owned(),
            Category::Atomic => "Atomic".to_owned(),
            Category::Time => "Time".to_owned(),
            Category::People => "People".to_owned(),
            Category::Places => "Places".to_owned(),
            Category::Verb => "Verb".to_owned(),
            Category::Adjadv => "Adjadv".to_owned(),
            Category::Color => "Color".to_owned(),
            Category::Direction => "Direction".to_owned(),
            Category::Nature => "Nature".to_owned(),
            Category::Food => "Food".to_owned(),
            Category::Body => "Body".to_owned(),
            Category::Home => "Home".to_owned(),
            Category::Intangible => "Intangible".to_owned(),
            Category::Activity => "Activity".to_owned(),
            Category::Wearables => "Wearables".to_owned(),
            Category::Manmade => "Manmade".to_owned(),
            Category::Stationery => "Stationery".to_owned(),
            Category::Transport => "Transport".to_owned(),
            Category::Sentence => "Sentence".to_owned(),
        }
    }

    /// Case-insensitive parse of a category name; exactly the texts that
    /// fold to a canonical name are accepted, and every other text is an
    /// `InvalidCategory` error.
    pub fn parse(s: &str) -> (r: Result<Category, StudyError>)
        ensures
            match Category::parse_spec(s@) {
                Some(c) => r == Ok::<Category, StudyError>(c),
                None => r == Err::<Category, StudyError>(StudyError::InvalidCategory),
            },
    {
        if str_eq_ci(s, "Unit") {
            Ok(Category::Unit)
        } else if str_eq_ci(s, "Atomic") {
            Ok(Category::Atomic)
        } else if str_eq_ci(s, "Time") {
            Ok(Category::Time)
        } else if str_eq_ci(s, "People") {
            Ok(Category::People)
        } else if str_eq_ci(s, "Places") {
            Ok(Category::Places)
        } else if str_eq_ci(s, "Verb") {
            Ok(Category::Verb)
        } else if str_eq_ci(s, "Adjadv") {
            Ok(Category::Adjadv)
        } else if str_eq_ci(s, "Color") {
            Ok(Category::Color)
        } else if str_eq_ci(s, "Direction") {
            Ok(Category::Direction)
        } else if str_eq_ci(s, "Nature") {
            Ok(Category::Nature)
        } else if str_eq_ci(s, "Food") {
            Ok(Category::Food)
        } else if str_eq_ci(s, "Body") {
            Ok(Category::Body)
        } else if str_eq_ci(s, "Home") {
            Ok(Category::Home)
        } else if str_eq_ci(s, "Intangible") {
            Ok(Category::Intangible)
        } else if str_eq_ci(s, "Activity") {
            Ok(Category::Activity)
        } else if str_eq_ci(s, "Wearables") {
            Ok(Category::Wearables)
        } else if str_eq_ci(s, "Manmade") {
            Ok(Category::Manmade)
        } else if str_eq_ci(s, "Stationery") {
            Ok(Category::Stationery)
        } else if str_eq_ci(s, "Transport") {
            Ok(Category::Transport)
        } else if str_eq_ci(s, "Sentence") {
            Ok(Category::Sentence)
        } else {
            Err(StudyError::InvalidCategory)
        }
    }
}

/// Parse a whole command-line list of category names.  Every name must
/// parse; one bad name rejects the whole list as `InvalidCategory`.
pub fn parse_categories(inputs: &Vec<String>) -> (r: Result<Vec<Category>, StudyError>)
    ensures
        r is Ok <==> (forall|j: int|
            0 <= j < inputs@.len() ==> (#[trigger] Category::parse_spec(inputs@[j]@)) is Some),
        r matches Ok(cats) ==> cats@.len() == inputs@.len() && forall|j: int|
            0 <= j < inputs@.len() ==> Category::parse_spec(inputs@[j]@) == Some(
                #[trigger] cats@[j],
            ),
        r is Err ==> r == Err::<Vec<Category>, StudyError>(StudyError::InvalidCategory),
{
    let mut cats: Vec<Category> = Vec::new();
    let mut i: usize = 0;
    while i < inputs.len()
        invariant
            i <= inputs@.len(),
            cats@.len() == i,
            forall|j: int| 0 <= j < i ==> Category::parse_spec(inputs@[j]@) == Some(
                #[trigger] cats@[j],
            ),
            forall|j: int|
                0 <= j < i ==> (#[trigger] Category::parse_spec(inputs@[j]@)) is Some,
        decreases inputs@.len() - i,
    {
        match Category::parse(inputs[i].as_str()) {
            Ok(c) => { cats.push(c) },
            Err(_) => {
                return Err(StudyError::InvalidCategory);
            },
        }
        i = i + 1;
    }
    Ok(cats)
}

/// Each category sits in `all_spec` at its own index; in particular the
/// index determines the category.
pub proof fn lemma_all_spec_index()
    ensures
        forall|c: Category|
            0 <= (#[trigger] c.index_spec()) < CATEGORY_COUNT && Category::all_spec()[c.index_spec()] == c,
{
    assert forall|c: Category|
        0 <= (#[trigger] c.index_spec()) < CATEGORY_COUNT && Category::all_spec()[c.index_spec()] == c by {
        assert(Category::all_spec()[Category::Unit.index_spec()] == Category::Unit);
        assert(Category::all_spec()[Category::Atomic.index_spec()] == Category::Atomic);
        assert(Category::all_spec()[Category::Time.index_spec()] == Category::Time);
        assert(Category::all_spec()[Category::People.index_spec()] == Category::People);
        assert(Category::all_spec()[Category::Places.index_spec()] == Category::Places);
        assert(Category::all_spec()[Category::Verb.index_spec()] == Category::Verb);
        assert(Category::all_spec()[Category::Adjadv.index_spec()] == Category::Adjadv);
        assert(Category::all_spec()[Category::Color.index_spec()] == Category::Color);
        assert(Category::all_spec()[Category::Direction.index_spec()] == Category::Direction);
        assert(Category::all_spec()[Category::Nature.index_spec()] == Category::Nature);
        assert(Category::all_spec()[Category::Food.index_spec()] == Category::Food);
        assert(Category::all_spec()[Category::Body.index_spec()] == Category::Body);
        assert(Category::all_spec()[Category::Home.index_spec()] == Category::Home);
        assert(Category::all_spec()[Category::Intangible.index_spec()] == Category::Intangible);
        assert(Category::all_spec()[Category::Activity.index_spec()] == Category::Activity);
        assert(Category::all_spec()[Category::Wearables.index_spec()] == Category::Wearables);
        assert(Category::all_spec()[Category::Manmade.index_spec()] == Category::Manmade);
        assert(Category::all_spec()[Category::Stationery.index_spec()] == Category::Stationery);
        assert(Category::all_spec()[Category::Transport.index_spec()] == Category::Transport);
        assert(Category::all_spec()[Category::Sentence.index_spec()] == Category::Sentence);
    }
}

/// Exec mirror of `lower_char`.
fn lower_char_exec(c: char) -> (r: char)
    ensures
        r == lower_char(c),
{
    let u = c as u32;
    if 65 <= u && u <= 90 {
        ((c as u8) + 32) as char
    } else {
        c
    }
}

/// ASCII-case-insensitive equality of two texts.
fn str_eq_ci(a: &str, b: &str) -> (r: bool)
    ensures
        r == (lower_seq(a@) == lower_seq(b@)),
{
    let a_len = a.unicode_len();
    let b_len = b.unicode_len();
    if a_len != b_len {
        proof {
            assert(lower_seq(a@).len() != lower_seq(b@).len());
        }
        return false;
    }
    let mut i: usize = 0;
    while i < a_len
        invariant
            i <= a_len,
            a_len == a@.len(),
            a_len == b@.len(),
            forall|j: int| 0 <= j < i ==> lower_seq(a@)[j] == lower_seq(b@)[j],
        decreases a_len - i,
    {
        let ca = a.get_char(i);
        let cb = b.get_char(i);
        if lower_char_exec(ca) != lower_char_exec(cb) {
            proof {
                assert(lower_seq(a@)[i as int] != lower_seq(b@)[i as int]);
            }
            return false;
        }
        i = i + 1;
    }
    proof {
        assert(lower_seq(a@) =~= lower_seq(b@));
    }
    true
}

} // verus!
