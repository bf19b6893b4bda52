use vstd::prelude::*;

use crate::encoding::concat_bytes;

verus! {

/// Upper-case letters, without `O`, which reads like `0`. (`ABCDEFGHIJKLMNPQRSTUVWXYZ`)
pub open spec fn upper_chars() -> Seq<u8> {
    seq![
        65u8, 66, 67, 68, 69, 70, 71, 72, 73, 74, 75, 76, 77, 78, 80, 81, 82, 83, 84, 85, 86, 87,
        88, 89, 90
    ]
}

fn upper_pool() -> (r: Vec<u8>)
    ensures
        r@ == upper_chars(),
{
    let r: Vec<u8> = vec![
        65u8, 66, 67, 68, 69, 70, 71, 72, 73, 74, 75, 76, 77, 78, 80, 81, 82, 83, 84, 85, 86, 87,
        88, 89, 90
    ];
    assert(r@ == upper_chars());
    r
}

/// Lower-case letters, without `i` and `l`, which read like `1`. (`abcdefghjkmnopqrstuvwxyz`)
pub open spec fn lower_chars() -> Seq<u8> {
    seq![
        97u8, 98, 99, 100, 101, 102, 103, 104, 106, 107, 109, 110, 111, 112, 113, 114, 115, 116,
        117, 118, 119, 120, 121, 122
    ]
}

fn lower_pool() -> (r: Vec<u8>)
    ensures
        r@ == lower_chars(),
{
    let r: Vec<u8> = vec![
        97u8, 98, 99, 100, 101, 102, 103, 104, 106, 107, 109, 110, 111, 112, 113, 114, 115, 116,
        117, 118, 119, 120, 121, 122
    ];
    assert(r@ == lower_chars());
    r
}

/// Digits, without `0`. (`123456789`)
pub open spec fn number_chars() -> Seq<u8> {
    seq![
        49u8, 50, 51, 52, 53, 54, 55, 56, 57
    ]
}

fn number_pool() -> (r: Vec<u8>)
    ensures
        r@ == number_chars(),
{
    let r: Vec<u8> = vec![
        49u8, 50, 51, 52, 53, 54, 55, 56, 57
    ];
    assert(r@ == number_chars());
    r
}

/// Punctuation. (`!"#$%&'()*+,-./:;<=>?@[]^_{|}~`)
pub open spec fn symbol_chars() -> Seq<u8> {
    seq![
        33u8, 34, 35, 36, 37, 38, 39, 40, 41, 42, 43, 44, 45, 46, 47, 58, 59, 60, 61, 62, 63, 64,
        91, 93, 94, 95, 123, 124, 125, 126
    ]
}

fn symbol_pool() -> (r: Vec<u8>)
    ensures
        r@ == symbol_chars(),
{
    let r: Vec<u8> = vec![
        33u8, 34, 35, 36, 37, 38, 39, 40, 41, 42, 43, 44, 45, 46, 47, 58, 59, 60, 61, 62, 63, 64,
        91, 93, 94, 95, 123, 124, 125, 126
    ];
    assert(r@ == symbol_chars());
    r
}

/// Relies on rand's `SliceRandom::choose` with `thread_rng`: one element of a non-empty
/// slice, picked at random.
#[verifier::external_body]
fn choose_one(pool: &[u8]) -> (r: u8)
    requires
        pool@.len() > 0,
    ensures
        pool@.contains(r),
{
    match rand::seq::SliceRandom::choose(pool, &mut rand::thread_rng()) {
        Some(c) => *c,
        None => 0,
    }
}

/// Relies on rand's `SliceRandom::shuffle` with `thread_rng`: the same elements in a
/// random order.
#[verifier::external_body]
fn shuffle(v: &mut Vec<u8>)
    ensures
        final(v)@.to_multiset() == old(v)@.to_multiset(),
{
    rand::seq::SliceRandom::shuffle(v.as_mut_slice(), &mut rand::thread_rng())
}

/// How many character classes are chosen.
pub open spec fn class_count(upper: bool, lower: bool, number: bool, symbol: bool) -> nat {
    (if upper { 1nat } else { 0nat }) + (if lower { 1nat } else { 0nat }) + (if number { 1nat } else { 0nat }) + (if symbol { 1nat } else { 0nat })
}

/// The characters that a password may hold: those of every chosen class.
pub open spec fn in_pool(c: u8, upper: bool, lower: bool, number: bool, symbol: bool) -> bool {
    (upper && upper_chars().contains(c)) || (lower && lower_chars().contains(c)) || (number
        && number_chars().contains(c)) || (symbol && symbol_chars().contains(c))
}

/// Whether `p` holds a character of `class`.
pub open spec fn has_one_of(p: Seq<u8>, class: Seq<u8>) -> bool {
    exists|i: int| 0 <= i < p.len() && class.contains(#[trigger] p[i])
}

/// Generates a random password of `length` characters out of the chosen classes, with at
/// least one character of each chosen class. `length` must leave room for one of each, and
/// a non-empty password needs a class to draw from.
pub fn process_genpass(length: u8, upper: bool, lower: bool, number: bool, symbol: bool) -> (r:
    Vec<u8>)
    requires
        class_count(upper, lower, number, symbol) <= length,
        length > 0 ==> class_count(upper, lower, number, symbol) > 0,
    ensures
        r@.len() == length,
        forall|i: int| 0 <= i < r@.len() ==> in_pool(#[trigger] r@[i], upper, lower, number, symbol),
        upper ==> has_one_of(r@, upper_chars()),
        lower ==> has_one_of(r@, lower_chars()),
        number ==> has_one_of(r@, number_chars()),
        symbol ==> has_one_of(r@, symbol_chars()),
{
    let mut password: Vec<u8> = Vec::new();
    let mut chars: Vec<u8> = Vec::new();
    if upper {
        let pool = upper_pool();
        chars = concat_bytes(chars.as_slice(), pool.as_slice());
        password.push(choose_one(pool.as_slice()));
    }
    let ghost after_upper = password@;
    if lower {
        let pool = lower_pool();
        chars = concat_bytes(chars.as_slice(), pool.as_slice());
        password.push(choose_one(pool.as_slice()));
    }
    let ghost after_lower = password@;
    if number {
        let pool = number_pool();
        chars = concat_bytes(chars.as_slice(), pool.as_slice());
        password.push(choose_one(pool.as_slice()));
    }
    let ghost after_number = password@;
    if symbol {
        let pool = symbol_pool();
        chars = concat_bytes(chars.as_slice(), pool.as_slice());
        password.push(choose_one(pool.as_slice()));
    }
    assert(password@.len() == class_count(upper, lower, number, symbol));
    assert(forall|c: u8| #[trigger] chars@.contains(c) ==> in_pool(c, upper, lower, number, symbol));
    assert(forall|i: int| 0 <= i < password@.len() ==> in_pool(#[trigger] password@[i], upper, lower, number, symbol));
    assert(upper ==> upper_chars().contains(password@[0]));
    assert(lower ==> lower_chars().contains(password@[after_upper.len() as int]));
    assert(number ==> number_chars().contains(password@[after_lower.len() as int]));
    assert(symbol ==> symbol_chars().contains(password@[after_number.len() as int]));
    let ghost picked = password@;
    let fill: u8 = length - password.len() as u8;
    let mut k: u8 = 0;
    while k < fill
        invariant
            k <= fill,
            fill as nat + picked.len() == length,
            password@.len() == picked.len() + k,
            password@.subrange(0, picked.len() as int) == picked,
            forall|i: int| 0 <= i < password@.len() ==> in_pool(#[trigger] password@[i], upper, lower, number, symbol),
            forall|c: u8| #[trigger] chars@.contains(c) ==> in_pool(c, upper, lower, number, symbol),
            fill > 0 ==> chars@.len() > 0,
        decreases fill - k,
    {
        let c = choose_one(chars.as_slice());
        let ghost before = password@;
        password.push(c);
        assert(password@.subrange(0, picked.len() as int) == before.subrange(0, picked.len() as int));
        k = k + 1;
    }
    let ghost unshuffled = password@;
    shuffle(&mut password);
    proof {
        broadcast use vstd::seq_lib::group_to_multiset_ensures;
        assert forall|j: int| 0 <= j < unshuffled.len() implies password@.contains(#[trigger] unshuffled[j]) by {
            assert(unshuffled.contains(unshuffled[j]));
            assert(unshuffled.to_multiset().count(unshuffled[j]) > 0);
        }
        assert forall|i: int| 0 <= i < password@.len() implies in_pool(#[trigger] password@[i], upper, lower, number, symbol) by {
            assert(password@.contains(password@[i]));
            assert(password@.to_multiset().count(password@[i]) > 0);
            assert(unshuffled.contains(password@[i]));
        }
        assert(password@.len() == unshuffled.len()) by {
            assert(password@.len() == password@.to_multiset().len());
            assert(unshuffled.len() == unshuffled.to_multiset().len());
        }
        if upper {
            assert(unshuffled.subrange(0, picked.len() as int)[0] == picked[0]);
            let c = unshuffled[0];
            assert(password@.contains(c));
            let j = choose|j: int| 0 <= j < password@.len() && password@[j] == c;
            assert(upper_chars().contains(password@[j]));
        }
        if lower {
            let m = after_upper.len() as int;
            assert(unshuffled.subrange(0, picked.len() as int)[m] == picked[m]);
            let c = unshuffled[m];
            assert(password@.contains(c));
            let j = choose|j: int| 0 <= j < password@.len() && password@[j] == c;
            assert(lower_chars().contains(password@[j]));
        }
        if number {
            let m = after_lower.len() as int;
            assert(unshuffled.subrange(0, picked.len() as int)[m] == picked[m]);
            let c = unshuffled[m];
            assert(password@.contains(c));
            let j = choose|j: int| 0 <= j < password@.len() && password@[j] == c;
            assert(number_chars().contains(password@[j]));
        }
        if symbol {
            let m = after_number.len() as int;
            assert(unshuffled.subrange(0, picked.len() as int)[m] == picked[m]);
            let c = unshuffled[m];
            assert(password@.contains(c));
            let j = choose|j: int| 0 <= j < password@.len() && password@[j] == c;
            assert(symbol_chars().contains(password@[j]));
        }
    }
    password
}

} // verus!
