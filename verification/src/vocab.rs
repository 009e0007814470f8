use vstd::prelude::*;

use crate::category::Category;
use crate::text::{dec_spec, dec_string};

verus! {

/// One dictionary entry, immutable once loaded.
#[derive(Debug, Clone, PartialEq)]
pub struct Vocab {
    pub level: u8,
    pub order: u16,
    pub category: Category,
    pub hiragana: String,
    pub kanji: Option<String>,
    pub romaji: String,
    pub meaning: String,
    pub example: Option<String>,
}

/// An absent text shown as the placeholder "-".
pub open spec fn display_option_spec(o: Option<String>) -> Seq<char> {
    match o {
        Some(s) => s@,
        None => "-"@,
    }
}

/// Replace an absent text with the placeholder "-".
pub fn display_option(o: &Option<String>) -> (r: String)
    ensures
        r@ == display_option_spec(*o),
{
    match o {
        Some(s) => s.clone(),
        None => "-".to_owned(),
    }
}

/// The one-line form `hiragana [| kanji] | romaji`.
pub open spec fn short_display_spec(v: Vocab) -> Seq<char> {
    v.hiragana@ + (match v.kanji {
        Some(k) => " | "@ + k@,
        None => Seq::<char>::empty(),
    }) + " | "@ + v.romaji@
}

/// The full card: header line, reading forms, meaning and example.
pub open spec fn full_display_spec(v: Vocab) -> Seq<char> {
    "\n====== "@ + v.category.name_spec() + " "@ + dec_spec(v.order as nat) + " | Level "@
        + dec_spec(v.level as nat) + " =====\n"@ + v.hiragana@ + (match v.kanji {
        Some(k) => " | "@ + k@,
        None => Seq::<char>::empty(),
    }) + " | "@ + v.romaji@ + "\nMeaning: "@ + v.meaning@ + "\n"@ + (match v.example {
        Some(e) => "Example: "@ + e@ + "\n"@,
        None => Seq::<char>::empty(),
    })
}

/// The single-line dump used by the tabular listing.
pub open spec fn line_display_spec(v: Vocab) -> Seq<char> {
    v.category.name_spec() + " "@ + dec_spec(v.order as nat) + " | Level "@ + dec_spec(
        v.level as nat,
    ) + " || "@ + v.hiragana@ + " | "@ + (match v.kanji {
        Some(k) => k@,
        None => " - "@,
    }) + " | "@ + v.romaji@ + " | "@ + v.meaning@ + " | "@ + (match v.example {
        Some(e) => e@,
        None => " - "@,
    })
}

impl Vocab {
    /// Render the one-line short form.
    pub fn short_display(&self) -> (r: String)
        ensures
            r@ == short_display_spec(*self),
    {
        let mut out = String::new();
        out.append(self.hiragana.as_str());
        match &self.kanji {
            Some(k) => {
                out.append(" | ");
                out.append(k.as_str());
            },
            None => {},
        }
        out.append(" | ");
        out.append(self.romaji.as_str());
        proof {
            assert(out@ =~= short_display_spec(*self));
        }
        out
    }

    /// Render the full card.
    pub fn full_display(&self) -> (r: String)
        ensures
            r@ == full_display_spec(*self),
    {
        let mut out = String::new();
        out.append("\n====== ");
        let name = self.category.display();
        out.append(name.as_str());
        out.append(" ");
        let order_text = dec_string(self.order);
        out.append(order_text.as_str());
        out.append(" | Level ");
        let level_text = dec_string(self.level as u16);
        out.append(level_text.as_str());
        out.append(" =====\n");
        out.append(self.hiragana.as_str());
        match &self.kanji {
            Some(k) => {
                out.append(" | ");
                out.append(k.as_str());
            },
            None => {},
        }
        out.append(" | ");
        out.append(self.romaji.as_str());
        out.append("\nMeaning: ");
        out.append(self.meaning.as_str());
        out.append("\n");
        match &self.example {
            Some(e) => {
                out.append("Example: ");
                out.append(e.as_str());
                out.append("\n");
            },
            None => {},
        }
        proof {
            assert(out@ =~= full_display_spec(*self));
        }
        out
    }

    /// Render the single-line dump.
    pub fn line_display(&self) -> (r: String)
        ensures
            r@ == line_display_spec(*self),
    {
        let mut out = String::new();
        let name = self.category.display();
        out.append(name.as_str());
        out.append(" ");
        let order_text = dec_string(self.order);
        out.append(order_text.as_str());
        out.append(" | Level ");
        let level_text = dec_string(self.level as u16);
        out.append(level_text.as_str());
        out.append(" || ");
        out.append(self.hiragana.as_str());
        out.append(" | ");
        match &self.kanji {
            Some(k) => out.append(k.as_str()),
            None => out.append(" - "),
        }
        out.append(" | ");
        out.append(self.romaji.as_str());
        out.append(" | ");
        out.append(self.meaning.as_str());
        out.append(" | ");
        match &self.example {
            Some(e) => out.append(e.as_str()),
            None => out.append(" - "),
        }
        proof {
            assert(out@ =~= line_display_spec(*self));
        }
        out
    }
}

/// The fields a quiz can hide.
#[derive(Debug, Clone, Copy, PartialEq, Eq, Structural)]
pub enum MaskableVocabField {
    Hiragana,
    Romaji,
    Kanji,
    Meaning,
}

/// Whether a field list holds a given field.
pub fn has_field(fields: &Vec<MaskableVocabField>, f: MaskableVocabField) -> (r: bool)
    ensures
        r == fields@.contains(f),
{
    let mut i: usize = 0;
    while i < fields.len()
        invariant
            i <= fields@.len(),
            forall|j: int| 0 <= j < i ==> fields@[j] != f,
        decreases fields@.len() - i,
    {
        if fields[i] == f {
            return true;
        }
        i = i + 1;
    }
    proof {
        if fields@.contains(f) {
            let w = choose|w: int| 0 <= w < fields@.len() && fields@[w] == f;
            assert(false);
        }
    }
    false
}

/// A read-only projection of one entry with some fields hidden.
#[derive(Debug, Clone, PartialEq)]
pub struct MaskedVocab<'a, 'b> {
    pub vocab: &'a Vocab,
    pub masked_field: &'b Vec<MaskableVocabField>,
}

/// The masked card: each hidden field shows `???` in place of its value.
pub open spec fn masked_display_spec(v: Vocab, masked: Seq<MaskableVocabField>) -> Seq<char> {
    "\n====== "@ + v.category.name_spec() + " "@ + dec_spec(v.order as nat) + " | Level "@
        + dec_spec(v.level as nat) + " =====\n"@ + (if masked.contains(
        MaskableVocabField::Hiragana,
    ) {
        "Hiragana: ???"@
    } else {
        v.hiragana@
    }) + (match v.kanji {
        Some(k) => {
            if masked.contains(MaskableVocabField::Kanji) {
                " | Kanji: ???"@
            } else {
                " | "@ + k@
            }
        },
        None => Seq::<char>::empty(),
    }) + (if masked.contains(MaskableVocabField::Romaji) {
        " | Romaji: ???"@
    } else {
        " | "@ + v.romaji@
    }) + (if masked.contains(MaskableVocabField::Meaning) {
        "\nMeaning: ???\n"@
    } else {
        "\nMeaning: "@ + v.meaning@ + "\n"@
    })
}

impl<'a, 'b> MaskedVocab<'a, 'b> {
    /// Render the masked card.
    #[verifier::rlimit(60)]
    pub fn masked_display(&self) -> (r: String)
        ensures
            r@ == masked_display_spec(*self.vocab, self.masked_field@),
    {
        let v = self.vocab;
        let mut out = String::new();
        out.append("\n====== ");
        let name = v.category.display();
        out.append(name.as_str());
        out.append(" ");
        let order_text = dec_string(v.order);
        out.append(order_text.as_str());
        out.append(" | Level ");
        let level_text = dec_string(v.level as u16);
        out.append(level_text.as_str());
        out.append(" =====\n");
        if has_field(self.masked_field, MaskableVocabField::Hiragana) {
            out.append("Hiragana: ???");
        } else {
            out.append(v.hiragana.as_str());
        }
        match &v.kanji {
            Some(k) => {
                if has_field(self.masked_field, MaskableVocabField::Kanji) {
                    out.append(" | Kanji: ???");
                } else {
                    out.append(" | ");
                    out.append(k.as_str());
                }
            },
            None => {},
        }
        if has_field(self.masked_field, MaskableVocabField::Romaji) {
            out.append(" | Romaji: ???");
        } else {
            out.append(" | ");
            out.append(v.romaji.as_str());
        }
        if has_field(self.masked_field, MaskableVocabField::Meaning) {
            out.append("\nMeaning: ???\n");
        } else {
            out.append("\nMeaning: ");
            out.append(v.meaning.as_str());
            out.append("\n");
        }
        proof {
            assert(out@ =~= masked_display_spec(*self.vocab, self.masked_field@));
        }
        out
    }
}

} // verus!
