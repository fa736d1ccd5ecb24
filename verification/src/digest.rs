//! Names of files made out of keys.

use std::collections::hash_map::DefaultHasher;
use std::hash::{Hash, Hasher};
use vstd::arithmetic::power::pow;
use vstd::prelude::*;
use vstd::std_specs::hash::DefaultHasherAdditionalSpecFns;

verus! {

/// What `<str as Hash>::hash` feeds to a hasher.
pub uninterp spec fn fed_by(text: Seq<char>) -> Seq<Seq<u8>>;

/// `<str as Hash>::hash`: feeds `text` to `hasher`, after what was fed to it before. What is fed
/// depends on the text alone; which bytes these are is not stated.
#[verifier::external_body]
fn feed(text: &str, hasher: &mut DefaultHasher)
    ensures
        final(hasher)@ == old(hasher)@ + fed_by(text@),
{
    text.hash(hasher)
}

/// The hash of a text.
pub open spec fn hash_of(text: Seq<char>) -> u64 {
    DefaultHasher::spec_finish(fed_by(text))
}

/// The hash of a text.
fn hash(text: &str) -> (hash: u64)
    ensures
        hash == hash_of(text@),
        hash == DefaultHasher::spec_finish(fed_by(text@)),
{
    let mut hasher = DefaultHasher::new();
    feed(text, &mut hasher);
    assert(hasher@ =~= fed_by(text@));
    hasher.finish()
}

/// The hexadecimal digit for a number below sixteen.
pub open spec fn hex_digit(n: nat) -> char {
    if n < 10 {
        ('0' as int + n) as char
    } else {
        ('a' as int + n - 10) as char
    }
}

/// A number in hexadecimal digits, without leading zeros.
pub open spec fn hex(n: nat) -> Seq<char>
    decreases n,
{
    if n < 16 {
        seq![hex_digit(n)]
    } else {
        hex(n / 16).push(hex_digit(n % 16))
    }
}

/// A number is determined by its digits.
pub proof fn law_hex_injective(a: nat, b: nat)
    requires
        hex(a) == hex(b),
    ensures
        a == b,
    decreases a,
{
    lemma_hex_not_empty(a / 16);
    lemma_hex_not_empty(b / 16);
    assert(hex(a).last() == hex_digit(a % 16));
    assert(hex(b).last() == hex_digit(b % 16));
    if a >= 16 {
        assert(hex(a).drop_last() =~= hex(a / 16));
        assert(hex(b).drop_last() =~= hex(b / 16));
        law_hex_injective(a / 16, b / 16);
    }
}

/// Every number has a digit.
proof fn lemma_hex_not_empty(n: nat)
    ensures
        hex(n).len() > 0,
{
}

/// The hexadecimal digit for a number below sixteen.
fn digit(n: u64) -> (text: &'static str)
    requires
        n < 16,
    ensures
        text@ == seq![hex_digit(n as nat)],
{
    proof {
        reveal_strlit("0");
        reveal_strlit("1");
        reveal_strlit("2");
        reveal_strlit("3");
        reveal_strlit("4");
        reveal_strlit("5");
        reveal_strlit("6");
        reveal_strlit("7");
        reveal_strlit("8");
        reveal_strlit("9");
        reveal_strlit("a");
        reveal_strlit("b");
        reveal_strlit("c");
        reveal_strlit("d");
        reveal_strlit("e");
        reveal_strlit("f");
    }
    match n {
        0 => "0",
        1 => "1",
        2 => "2",
        3 => "3",
        4 => "4",
        5 => "5",
        6 => "6",
        7 => "7",
        8 => "8",
        9 => "9",
        10 => "a",
        11 => "b",
        12 => "c",
        13 => "d",
        14 => "e",
        _ => "f",
    }
}

/// A number in hexadecimal digits.
pub fn in_hex(n: u64) -> (text: String)
    ensures
        text@ == hex(n as nat),
    decreases n,
{
    if n < 16 {
        digit(n).to_owned()
    } else {
        let mut text = in_hex(n / 16);
        text.append(digit(n % 16));
        assert(text@ =~= hex(n as nat));
        text
    }
}

/// The name of the image with a given hash.
pub open spec fn name_for_hash(hash: u64) -> Seq<char> {
    hex(hash as nat) + ".webp"@
}

/// The name of the file in which the image for `key` is kept.
pub open spec fn image_name(key: Seq<char>) -> Seq<char> {
    name_for_hash(hash_of(key))
}

/// The name of the image with a given hash.
pub fn image_for_hash(hash: u64) -> (name: String)
    ensures
        name@ == name_for_hash(hash),
        name@ == hex(hash as nat) + ".webp"@,
{
    let mut name = in_hex(hash);
    name.append(".webp");
    name
}

/// The name of the file in which the image for `key` is kept.
pub fn cache_filename(key: &str) -> (name: String)
    ensures
        name@ == image_name(key@),
        name@ == hex(DefaultHasher::spec_finish(fed_by(key@)) as nat) + ".webp"@,
{
    image_for_hash(hash(key))
}

/// Whether a character is a hexadecimal digit in small letters.
pub open spec fn is_hex_digit(c: char) -> bool {
    '0' <= c <= '9' || 'a' <= c <= 'f'
}

/// A number below sixteen to the power of `most` has one to `most` digits, each of them
/// hexadecimal.
proof fn lemma_hex_digits(n: nat, most: nat)
    requires
        most >= 1,
        n < pow(16, most),
    ensures
        1 <= hex(n).len() <= most,
        forall|i: int| 0 <= i < hex(n).len() ==> is_hex_digit(#[trigger] hex(n)[i]),
    decreases n,
{
    if n >= 16 {
        let fewer = (most - 1) as nat;
        reveal(pow);
        if fewer == 0 {
            assert(pow(16, fewer) == 1);
        }
        assert(n / 16 < pow(16, fewer));
        lemma_hex_digits(n / 16, fewer);
    }
}

/// The file for a key is named by one to sixteen hexadecimal digits and the extension, whatever
/// the key holds: no key leads out of the directory of the files.
pub proof fn law_names_stay_in_the_directory(key: Seq<char>)
    ensures
        image_name(key) == hex(hash_of(key) as nat) + ".webp"@,
        1 <= hex(hash_of(key) as nat).len() <= 16,
        forall|i: int|
            0 <= i < hex(hash_of(key) as nat).len() ==> is_hex_digit(
                #[trigger] hex(hash_of(key) as nat)[i],
            ),
        forall|i: int|
            0 <= i < image_name(key).len() ==> #[trigger] image_name(key)[i] != '/'
                && image_name(key)[i] != '\\',
{
    reveal_strlit(".webp");
    reveal_with_fuel(pow, 17);
    assert(pow(16, 16) == 0x1_0000_0000_0000_0000);
    lemma_hex_digits(hash_of(key) as nat, 16);
}

/// The file for a key is named by what the standard hasher makes of the whole key, in hexadecimal
/// digits, and the extension: for keys of any length.
pub proof fn law_name_is_made_of_the_whole_key(key: Seq<char>)
    ensures
        image_name(key) == hex(DefaultHasher::spec_finish(fed_by(key)) as nat) + ".webp"@,
{
}

/// Two keys share a file exactly if the standard hasher makes the same of what the two whole keys
/// feed to it.
pub proof fn law_keys_share_a_file_by_their_whole_hash(a: Seq<char>, b: Seq<char>)
    ensures
        image_name(a) == image_name(b) <==> DefaultHasher::spec_finish(fed_by(a))
            == DefaultHasher::spec_finish(fed_by(b)),
{
    law_names_differ_with_hashes(a, b);
}

/// The number that a hexadecimal digit stands for.
pub open spec fn digit_value(c: char) -> int {
    if '0' <= c <= '9' {
        c as int - '0' as int
    } else {
        c as int - 'a' as int + 10
    }
}

/// The number that hexadecimal digits stand for, the most significant first.
pub open spec fn digits_value(digits: Seq<char>) -> int
    decreases digits.len(),
{
    if digits.len() == 0 {
        0
    } else {
        digits_value(digits.drop_last()) * 16 + digit_value(digits.last())
    }
}

/// The digits of a number stand for it, and the first of them is no zero, but for zero itself.
pub proof fn law_hex_stands_for_its_number(n: nat)
    ensures
        digits_value(hex(n)) == n,
        hex(n).len() >= 1,
        hex(n)[0] == '0' ==> n == 0,
        forall|i: int| 0 <= i < hex(n).len() ==> is_hex_digit(#[trigger] hex(n)[i]),
    decreases n,
{
    reveal_with_fuel(digits_value, 2);
    if n >= 16 {
        law_hex_stands_for_its_number(n / 16);
        assert(hex(n).drop_last() =~= hex(n / 16));
        assert(hex(n)[0] == hex(n / 16)[0]);
    } else {
        assert(hex(n).drop_last() =~= Seq::empty());
    }
}

/// Two keys share a file only where they share a hash.
pub proof fn law_names_differ_with_hashes(a: Seq<char>, b: Seq<char>)
    ensures
        image_name(a) == image_name(b) <==> hash_of(a) == hash_of(b),
{
    if image_name(a) == image_name(b) {
        reveal_strlit(".webp");
        let digits_a = hex(hash_of(a) as nat);
        let digits_b = hex(hash_of(b) as nat);
        assert(image_name(a).len() == digits_a.len() + 5);
        assert(image_name(b).len() == digits_b.len() + 5);
        assert(image_name(a).take(digits_a.len() as int) =~= digits_a);
        assert(image_name(b).take(digits_b.len() as int) =~= digits_b);
        law_hex_injective(hash_of(a) as nat, hash_of(b) as nat);
    }
}

} // verus!
