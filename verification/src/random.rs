//! The identifier generator: three random letters, each independently
//! upper- or lower-case, followed by a random number in [10, 99], with a
//! retry loop that avoids every identifier already in the saved set.

use crate::ids::{contains_id, has_valid_id, id_number, is_digit, is_letter, is_valid_id};
use rand::Rng;
use vstd::prelude::*;

verus! {

/// Relies on rand::Rng::gen_range on rand::thread_rng: a uniformly random
/// value in the half-open range; it panics only on an empty range, which
/// the precondition rules out.
#[verifier::external_body]
fn generate_range(lo: u8, hi: u8) -> (r: u8)
    requires
        lo < hi,
    ensures
        lo <= r < hi,
{
    rand::thread_rng().gen_range(lo..hi)
}

/// Relies on String::from_utf8: bytes below 128 are ASCII, one character
/// per byte, each with the byte's own code point.
#[verifier::external_body]
fn string_from_ascii(bytes: Vec<u8>) -> (r: String)
    requires
        forall|i: int| 0 <= i < bytes@.len() ==> bytes@[i] < 128,
    ensures
        r@ == bytes@.map_values(|b: u8| b as char),
{
    match String::from_utf8(bytes) {
        Ok(s) => s,
        Err(_) => String::new(),
    }
}

/// Whether `b` is the code of an ASCII letter, upper- or lower-case.
pub open spec fn is_letter_byte(b: u8) -> bool {
    (65 <= b && b <= 90) || (97 <= b && b <= 122)
}

/// One random letter code: a coin flip picks upper or lower case, then a
/// letter is drawn uniformly within the chosen case.
pub fn generate_range_chars() -> (b: u8)
    ensures
        is_letter_byte(b),
{
    let upper = generate_range(65, 91);
    let lower = generate_range(97, 123);
    let flip = generate_range(0, 2);
    if flip == 0 {
        upper
    } else {
        lower
    }
}

/// One random identifier: three letters, each independently upper- or
/// lower-case, then a number drawn from [10, 99], as five characters.
pub fn generate_random_id() -> (id: String)
    ensures
        is_valid_id(id@),
{
    let mut bytes: Vec<u8> = Vec::new();
    let b0 = generate_range_chars();
    let b1 = generate_range_chars();
    let b2 = generate_range_chars();
    bytes.push(b0);
    bytes.push(b1);
    bytes.push(b2);
    let number = generate_range(10, 100);
    bytes.push(48 + number / 10);
    bytes.push(48 + number % 10);
    let id = string_from_ascii(bytes);
    proof {
        let v = bytes@;
        assert(v =~= seq![b0, b1, b2, (48 + number / 10) as u8, (48 + number % 10) as u8]);
        assert(id@.len() == 5);
        assert(id@[0] == b0 as char && id@[1] == b1 as char && id@[2] == b2 as char);
        assert(id@[3] == (48 + number / 10) as char && id@[4] == (48 + number % 10) as char);
        assert(is_letter(id@[0]) && is_letter(id@[1]) && is_letter(id@[2]));
        assert(is_digit(id@[3]) && is_digit(id@[4]));
        assert(id_number(id@) == number);
    }
    id
}

/// A fresh identifier outside the saved set: candidates are drawn until one
/// collides with nothing in `existing`, giving up after `max_attempts`
/// draws. While no saved entry is a well-formed identifier — an empty set,
/// or the one-empty-entry set an empty file loads as — no draw can collide,
/// so one attempt suffices and success is promised. A caller that wants to
/// retry without bound — a search that with every possible identifier
/// already saved would never end — calls this again whenever it returns
/// `None`.
pub fn generate_unique_id(existing: &Vec<String>, max_attempts: usize) -> (r: Option<String>)
    ensures
        r matches Some(id) ==> is_valid_id(id@) && !existing.deep_view().contains(id@),
        max_attempts == 0 ==> r is None,
        max_attempts > 0 && !has_valid_id(existing.deep_view()) ==> r is Some,
{
    let mut attempts: usize = 0;
    while attempts < max_attempts
        invariant
            attempts <= max_attempts,
            attempts > 0 ==> has_valid_id(existing.deep_view()),
        decreases max_attempts - attempts,
    {
        let id = generate_random_id();
        if !contains_id(existing, id.as_str()) {
            return Some(id);
        }
        proof {
            let views = existing.deep_view();
            let k = choose|k: int| 0 <= k < views.len() && views[k] == id@;
            assert(is_valid_id(views[k]));
        }
        attempts += 1;
    }
    None
}

} // verus!
