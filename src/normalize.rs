use vstd::prelude::*;

use crate::model::{CssProperty, CssPropertyName};

verus! {

/// The words separator of the upstream names.
pub open spec fn is_delimiter(c: char) -> bool {
    c == '-'
}

pub open spec fn is_ascii_lower(c: char) -> bool {
    'a' <= c && c <= 'z'
}

pub open spec fn is_ascii_upper(c: char) -> bool {
    'A' <= c && c <= 'Z'
}

pub open spec fn is_ascii_alphanumeric(c: char) -> bool {
    is_ascii_lower(c) || is_ascii_upper(c) || ('0' <= c && c <= '9')
}

pub open spec fn is_ascii_letter(c: char) -> bool {
    is_ascii_lower(c) || is_ascii_upper(c)
}

pub open spec fn is_ascii_text(s: Seq<char>) -> bool {
    forall|i: int| 0 <= i < s.len() ==> (#[trigger] s[i] as int) < 128
}

/// How many ASCII letters and digits `s` holds.
pub open spec fn alphanumeric_count(s: Seq<char>) -> nat
    decreases s.len(),
{
    if s.len() == 0 {
        0
    } else {
        alphanumeric_count(s.drop_last()) + if is_ascii_alphanumeric(s.last()) {
            1nat
        } else {
            0nat
        }
    }
}

pub open spec fn is_ascii_digit(c: char) -> bool {
    '0' <= c && c <= '9'
}

/// Where the letter or digit at position `i` of `s` lands in the output:
/// after one character for each letter or digit before it.
pub open spec fn output_position(s: Seq<char>, i: int) -> int {
    alphanumeric_count(s.take(i)) as int
}

/// A letter at position `i` that opens a word: it stands first or after a
/// character that is not a letter (a delimiter, a digit, any punctuation).
pub open spec fn starts_word(s: Seq<char>, i: int) -> bool {
    &&& 0 <= i < s.len()
    &&& is_ascii_letter(s[i])
    &&& (i == 0 || !is_ascii_letter(s[i - 1]))
}

/// A letter at position `i` that follows another letter.
pub open spec fn continues_word(s: Seq<char>, i: int) -> bool {
    &&& 0 < i < s.len()
    &&& is_ascii_letter(s[i])
    &&& is_ascii_letter(s[i - 1])
}

/// How `r` spells the ASCII text `s`: one character for each letter or
/// digit, in their order; digits as they are; the first letter of each word
/// as a capital; a lower-case letter inside a word as it is; a capital
/// inside a word as it is or as its lower case.
pub open spec fn ascii_casing(s: Seq<char>, r: Seq<char>) -> bool {
    &&& r.len() == alphanumeric_count(s)
    &&& forall|i: int|
        #![trigger output_position(s, i)]
        0 <= i < s.len() && is_ascii_digit(s[i]) ==> r[output_position(s, i)] == s[i]
    &&& forall|i: int|
        #![trigger output_position(s, i)]
        starts_word(s, i) ==> is_capital_of(r[output_position(s, i)], s[i])
    &&& forall|i: int|
        #![trigger output_position(s, i)]
        continues_word(s, i) && is_ascii_lower(s[i]) ==> r[output_position(s, i)] == s[i]
    &&& forall|i: int|
        #![trigger output_position(s, i)]
        continues_word(s, i) && is_ascii_upper(s[i]) ==> (r[output_position(s, i)] == s[i]
            || r[output_position(s, i)] as int == s[i] as int + 32)
}

/// `u` is `c` with an ASCII lower-case letter turned into its capital.
pub open spec fn is_capital_of(u: char, c: char) -> bool {
    if is_ascii_lower(c) {
        u as int == c as int - 32
    } else {
        u == c
    }
}

/// What inflector's Pascal casing makes of a text.
pub uninterp spec fn pascal_case_of(s: Seq<char>) -> Seq<char>;

/// Relies on `inflector::cases::pascalcase::to_pascal_case`. Its output is
/// built only from the alphanumeric characters of the input (so it holds no
/// `-`); the first alphanumeric character always reaches it. Each
/// alphanumeric character pushes exactly one character and no other
/// character pushes any. A digit is pushed as it is and starts a new word;
/// a letter that starts a word is pushed through `to_ascii_uppercase`; a
/// letter after another letter through `to_ascii_lowercase`, or, for some
/// capitals, through `to_ascii_uppercase`.
#[verifier::external_body]
fn pascal_case(s: &str) -> (r: String)
    ensures
        r@ == pascal_case_of(s@),
        forall|i: int| 0 <= i < r@.len() ==> !is_delimiter(#[trigger] r@[i]),
        s@.len() == 0 ==> r@.len() == 0,
        (exists|i: int| 0 <= i < s@.len() && is_ascii_alphanumeric(#[trigger] s@[i])) ==> r@.len()
            > 0,
        is_ascii_text(s@) ==> ascii_casing(s@, r@),
{
    inflector::cases::pascalcase::to_pascal_case(s)
}

/// Turns a delimiter-separated name (`background-color`) into the
/// concatenation of its capitalised words (`BackgroundColor`). The result
/// depends on the name alone, holds no delimiter, is empty for an empty name,
/// is not empty where the name holds an ASCII letter or digit. For an ASCII
/// name it has one character per letter or digit: digits pass through, the
/// first letter of each word is a capital, and lower-case letters inside a
/// word are kept.
pub fn normalize(original: &str) -> (r: String)
    ensures
        r@ == pascal_case_of(original@),
        forall|i: int| 0 <= i < r@.len() ==> !is_delimiter(#[trigger] r@[i]),
        original@.len() == 0 ==> r@.len() == 0,
        (exists|i: int|
            0 <= i < original@.len() && is_ascii_alphanumeric(#[trigger] original@[i]))
            ==> r@.len() > 0,
        is_ascii_text(original@) ==> ascii_casing(original@, r@),
{
    pascal_case(original)
}

/// The record that a raw property name becomes.
pub open spec fn is_record_of(p: CssProperty, raw: Seq<char>) -> bool {
    &&& p.name.original@ == raw
    &&& p.name.pascal_case@ == pascal_case_of(raw)
}

/// Makes one record of each raw name, in the order given.
pub fn remodel_raw_css_properties(raw_css_property_names: Vec<String>) -> (r: Vec<CssProperty>)
    ensures
        r@.len() == raw_css_property_names@.len(),
        forall|i: int|
            0 <= i < r@.len() ==> is_record_of(#[trigger] r@[i], raw_css_property_names@[i]@),
{
    let mut r: Vec<CssProperty> = Vec::new();
    let mut i: usize = 0;
    while i < raw_css_property_names.len()
        invariant
            i <= raw_css_property_names@.len(),
            r@.len() == i,
            forall|j: int| 0 <= j < i ==> is_record_of(#[trigger] r@[j], raw_css_property_names@[j]@),
        decreases raw_css_property_names@.len() - i,
    {
        let original = raw_css_property_names[i].clone();
        let pascal_case = normalize(original.as_str());
        r.push(CssProperty { name: CssPropertyName { original, pascal_case } });
        i = i + 1;
    }
    r
}

} // verus!
