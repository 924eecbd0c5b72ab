//! Random generation of short, phonetically distinct identifiers.
//!
//! An identifier alternates consonants and vowels drawn from alphabets that
//! avoid ambiguous characters, so it is human-typeable and easy to read back.
//! Uniqueness is only probabilistic: nothing here checks for collisions, the
//! store's conflict policy handles them.

use vstd::prelude::*;
use vstd::string::StringExecFns;

verus! {

/// Number of characters in a generated identifier.
pub const ID_LEN: usize = 10;

/// The consonant alphabet: phonetically distinct, no ambiguous characters.
pub open spec fn spec_consonants() -> Seq<char> {
    seq!['b', 'd', 'f', 'g', 'h', 'k', 'm', 'n', 'p', 'r', 's', 't', 'v', 'z']
}

/// The vowel alphabet.
pub open spec fn spec_vowels() -> Seq<char> {
    seq!['a', 'e', 'i', 'o', 'u']
}

/// What it means to be a well-formed identifier: exactly `ID_LEN` characters,
/// consonants at even positions and vowels at odd ones.
pub open spec fn is_valid_identifier(s: Seq<char>) -> bool {
    &&& s.len() == ID_LEN
    &&& forall|i: int|
        0 <= i < s.len() && i % 2 == 0 ==> spec_consonants().contains(#[trigger] s[i])
    &&& forall|i: int|
        0 <= i < s.len() && i % 2 == 1 ==> spec_vowels().contains(#[trigger] s[i])
}

/// Relies on rand::random: one random byte. Nothing is promised of its value.
#[verifier::external_body]
fn random_byte() -> u8 {
    rand::random::<u8>()
}

/// The consonant at index `i` of the alphabet, as a one-character string.
fn consonant_str(i: u8) -> (r: &'static str)
    requires
        i < 14,
    ensures
        r@.len() == 1,
        r@[0] == spec_consonants()[i as int],
{
    proof {
        reveal_strlit("b");
        reveal_strlit("d");
        reveal_strlit("f");
        reveal_strlit("g");
        reveal_strlit("h");
        reveal_strlit("k");
        reveal_strlit("m");
        reveal_strlit("n");
        reveal_strlit("p");
        reveal_strlit("r");
        reveal_strlit("s");
        reveal_strlit("t");
        reveal_strlit("v");
        reveal_strlit("z");
    }
    match i {
        0 => "b",
        1 => "d",
        2 => "f",
        3 => "g",
        4 => "h",
        5 => "k",
        6 => "m",
        7 => "n",
        8 => "p",
        9 => "r",
        10 => "s",
        11 => "t",
        12 => "v",
        _ => "z",
    }
}

/// The vowel at index `i` of the alphabet, as a one-character string.
fn vowel_str(i: u8) -> (r: &'static str)
    requires
        i < 5,
    ensures
        r@.len() == 1,
        r@[0] == spec_vowels()[i as int],
{
    proof {
        reveal_strlit("a");
        reveal_strlit("e");
        reveal_strlit("i");
        reveal_strlit("o");
        reveal_strlit("u");
    }
    match i {
        0 => "a",
        1 => "e",
        2 => "i",
        3 => "o",
        _ => "u",
    }
}

/// Generate a fresh random identifier.
pub fn get_random_id() -> (id: String)
    ensures
        is_valid_identifier(id@),
{
    let mut id = String::new();
    let mut i: usize = 0;
    while i < ID_LEN
        invariant
            i <= ID_LEN,
            id@.len() == i,
            forall|j: int|
                0 <= j < i && j % 2 == 0 ==> spec_consonants().contains(#[trigger] id@[j]),
            forall|j: int|
                0 <= j < i && j % 2 == 1 ==> spec_vowels().contains(#[trigger] id@[j]),
        decreases ID_LEN - i,
    {
        let b = random_byte();
        if i % 2 == 0 {
            id.append(consonant_str(b % 14));
        } else {
            id.append(vowel_str(b % 5));
        }
        i += 1;
    }
    id
}

} // verus!
