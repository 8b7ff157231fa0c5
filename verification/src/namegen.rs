//! Random display names for anonymous call participants.

use crate::outside::random_below;
use crate::text::{append_chars, chars_of, ends_with_chars, string_of};
use vstd::prelude::*;

verus! {

/// First names to pick from.
pub const FIRST: [&'static str; 7] = ["Александр", "Максим", "Дмитрий", "Алексей", "Мария", "Анна", "Елена"];

/// Surnames to pick from.
pub const LAST: [&'static str; 6] = ["Иванов", "Петров", "Смирнов", "Кузнецов", "Попов", "Соколова"];

/// The feminine form of a surname: one ending in "ов", "ев" or "ин" gains an
/// "а"; any other is kept.
pub open spec fn female_surname(surname: Seq<char>) -> Seq<char> {
    if "ов"@.is_suffix_of(surname) || "ев"@.is_suffix_of(surname) || "ин"@.is_suffix_of(surname) {
        surname + "а"@
    } else {
        surname
    }
}

/// The feminine form of a surname.
pub fn convertToFemaleSurname(surname: &str) -> (r: String)
    ensures
        r@ == female_surname(surname@),
{
    let s = chars_of(surname);
    let ov = chars_of("ов");
    let ev = chars_of("ев");
    let in_ = chars_of("ин");
    if ends_with_chars(s.as_slice(), ov.as_slice()) || ends_with_chars(s.as_slice(), ev.as_slice())
        || ends_with_chars(s.as_slice(), in_.as_slice()) {
        let mut out = s.clone();
        let a = chars_of("а");
        append_chars(&mut out, a.as_slice());
        string_of(out.as_slice())
    } else {
        string_of(s.as_slice())
    }
}

/// A random "first-name surname" pair from `FIRST` and `LAST`.
pub fn generateName() -> (r: String)
    ensures
        exists|i: int, j: int|
            0 <= i < 7 && 0 <= j < 6 && r@ == FIRST@[i]@ + " "@ + LAST@[j]@,
{
    let i = random_below(7);
    let j = random_below(6);
    let mut out = chars_of(FIRST[i]);
    let sp = chars_of(" ");
    append_chars(&mut out, sp.as_slice());
    let last = chars_of(LAST[j]);
    append_chars(&mut out, last.as_slice());
    let r = string_of(out.as_slice());
    assert(r@ == FIRST@[i as int]@ + " "@ + LAST@[j as int]@);
    r
}

} // verus!
