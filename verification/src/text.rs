use vstd::prelude::*;

verus! {

/// Whether a character counts as alphabetic; names the result of
/// `char::is_alphabetic`, which depends on the character alone.
pub uninterp spec fn is_alpha(c: char) -> bool;

/// The lowercase mapping of one character, possibly several characters
/// long; names the result of `char::to_lowercase`, which depends on the
/// character alone.
pub uninterp spec fn lowered(c: char) -> Seq<char>;

/// Relies on char::is_alphabetic: true exactly when the character has the
/// Unicode Alphabetic property.
#[verifier::external_body]
fn char_is_alphabetic(c: char) -> (r: bool)
    ensures
        r == is_alpha(c),
{
    c.is_alphabetic()
}

/// Relies on char::to_lowercase: yields the Unicode lowercase mapping of
/// the character.
#[verifier::external_body]
fn char_to_lowercase(c: char) -> (r: Vec<char>)
    ensures
        r@ == lowered(c),
{
    c.to_lowercase().collect()
}

/// Relies on String's FromIterator impl: collecting characters builds the
/// string of exactly those characters.
#[verifier::external_body]
fn chars_to_string(v: &Vec<char>) -> (r: String)
    ensures
        r@ == v@,
{
    v.iter().collect()
}

/// The romaji normal form of a text: every non-alphabetic character
/// dropped, every remaining character lowercased.
pub open spec fn normalize_spec(s: Seq<char>) -> Seq<char>
    decreases s.len(),
{
    if s.len() == 0 {
        Seq::empty()
    } else {
        (if is_alpha(s[0]) {
            lowered(s[0])
        } else {
            Seq::empty()
        }) + normalize_spec(s.drop_first())
    }
}

/// Normalization handles a text one character at a time.
proof fn lemma_normalize_push(s: Seq<char>, c: char)
    ensures
        normalize_spec(s.push(c)) == normalize_spec(s) + (if is_alpha(c) {
            lowered(c)
        } else {
            Seq::<char>::empty()
        }),
    decreases s.len(),
{
    let added = if is_alpha(c) {
        lowered(c)
    } else {
        Seq::<char>::empty()
    };
    if s.len() == 0 {
        assert(s.push(c)[0] == c);
        assert(s.push(c).drop_first() =~= Seq::<char>::empty());
        assert(normalize_spec(Seq::<char>::empty()) =~= Seq::<char>::empty());
        assert(normalize_spec(s.push(c)) =~= added);
        assert(normalize_spec(s) + added =~= added);
    } else {
        assert(s.push(c)[0] == s[0]);
        assert(s.push(c).drop_first() =~= s.drop_first().push(c));
        lemma_normalize_push(s.drop_first(), c);
        let head = if is_alpha(s[0]) {
            lowered(s[0])
        } else {
            Seq::<char>::empty()
        };
        assert(normalize_spec(s.push(c)) == head + (normalize_spec(s.drop_first()) + added));
        assert(head + (normalize_spec(s.drop_first()) + added) =~= (head + normalize_spec(
            s.drop_first(),
        )) + added);
    }
}

/// Strip every character that is not alphabetic and lowercase the rest:
/// the normal form under which two romaji spellings are compared.
pub fn clean_romaji(s: &str) -> (r: String)
    ensures
        r@ == normalize_spec(s@),
{
    let len = s.unicode_len();
    let mut buf: Vec<char> = Vec::new();
    let mut i: usize = 0;
    while i < len
        invariant
            i <= len,
            len == s@.len(),
            buf@ == normalize_spec(s@.take(i as int)),
        decreases len - i,
    {
        let c = s.get_char(i);
        if char_is_alphabetic(c) {
            let mut low = char_to_lowercase(c);
            buf.append(&mut low);
        }
        proof {
            lemma_normalize_push(s@.take(i as int), s@[i as int]);
            assert(s@.take(i + 1) =~= s@.take(i as int).push(s@[i as int]));
            if !is_alpha(s@[i as int]) {
                assert(normalize_spec(s@.take(i as int)) + Seq::<char>::empty() =~= normalize_spec(
                    s@.take(i as int),
                ));
            }
        }
        i = i + 1;
    }
    proof {
        assert(s@.take(len as int) =~= s@);
    }
    chars_to_string(&buf)
}

/// Whether a spelled answer matches the true romaji, both taken to their
/// normal form first.
pub fn romaji_matches(expected: &str, answer: &str) -> (r: bool)
    ensures
        r == (normalize_spec(expected@) == normalize_spec(answer@)),
{
    let a = clean_romaji(expected);
    let b = clean_romaji(answer);
    a.eq(&b)
}

/// The decimal digit character of one value below ten.
pub open spec fn digit_char(d: nat) -> char {
    ((48 + d) as u8) as char
}

/// The decimal text of a number, most significant digit first.
pub open spec fn dec_spec(n: nat) -> Seq<char>
    decreases n,
{
    if n < 10 {
        seq![digit_char(n)]
    } else {
        dec_spec(n / 10).push(digit_char(n % 10))
    }
}

/// Append the decimal digits of a number to a character buffer.
fn push_decimal(n: u16, buf: &mut Vec<char>)
    ensures
        final(buf)@ == old(buf)@ + dec_spec(n as nat),
    decreases n,
{
    if n < 10 {
        buf.push((48 + (n as u8)) as char);
        proof {
            assert((48 + (n as u8)) as char == digit_char(n as nat));
            assert(old(buf)@.push(digit_char(n as nat)) =~= old(buf)@ + dec_spec(n as nat));
        }
    } else {
        push_decimal(n / 10, buf);
        buf.push((48 + ((n % 10) as u8)) as char);
        proof {
            assert((48 + ((n % 10) as u8)) as char == digit_char((n % 10) as nat));
            assert((old(buf)@ + dec_spec((n / 10) as nat)).push(digit_char((n % 10) as nat))
                =~= old(buf)@ + dec_spec(n as nat));
        }
    }
}

/// The decimal text of a number, as a string.
pub fn dec_string(n: u16) -> (r: String)
    ensures
        r@ == dec_spec(n as nat),
{
    let mut buf: Vec<char> = Vec::new();
    push_decimal(n, &mut buf);
    chars_to_string(&buf)
}

/// A run of spaces, for column padding.
pub open spec fn spaces(n: nat) -> Seq<char>
    decreases n,
{
    if n == 0 {
        Seq::empty()
    } else {
        spaces((n - 1) as nat).push(' ')
    }
}

/// Append a run of spaces to a string.
pub fn push_spaces(out: &mut String, n: usize)
    ensures
        final(out)@ == old(out)@ + spaces(n as nat),
{
    let mut k: usize = 0;
    while k < n
        invariant
            k <= n,
            out@ == old(out)@ + spaces(k as nat),
        decreases n - k,
    {
        out.append(" ");
        proof {
            reveal_strlit(" ");
            assert((old(out)@ + spaces(k as nat)) + " "@ =~= old(out)@ + spaces((k + 1) as nat));
        }
        k = k + 1;
    }
}

} // verus!
