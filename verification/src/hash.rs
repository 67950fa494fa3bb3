//! Deterministic, bounded-length name derivation: a network name is turned
//! into a fixed-length handle made of characters that are legal in firewall
//! chain and rule names, so that any later invocation can recompute the same
//! handle without shared storage.
//!
//! Collisions between distinct names are not actively prevented; they are a
//! documented low-probability risk of the fixed-length derivation.
use vstd::prelude::*;
use vstd::string::StrSliceExecFns;
use vstd::string::StringExecFns;

verus! {

/// Exact number of characters in every derived rule handle.
pub const MAX_HASH_SIZE: usize = 13;

/// Offset basis of the 64-bit FNV-1a hash.
pub const FNV_OFFSET: u64 = 0xcbf29ce484222325;

/// Prime of the 64-bit FNV-1a hash.
pub const FNV_PRIME: u64 = 0x100000001b3;

/// One FNV-1a round: fold a character into the running hash.
pub open spec fn fnv_step(h: u64, c: char) -> u64 {
    ((((h ^ (c as u64)) as int) * (FNV_PRIME as int)) % 0x10000000000000000) as u64
}

/// The 64-bit FNV-1a hash of a character sequence.
pub open spec fn fnv1a(s: Seq<char>) -> u64
    decreases s.len(),
{
    if s.len() == 0 {
        FNV_OFFSET
    } else {
        fnv_step(fnv1a(s.drop_last()), s.last())
    }
}

/// The hexadecimal digit character for a value below sixteen.
pub open spec fn hex_char(d: u64) -> char {
    if d == 0 { '0' }
    else if d == 1 { '1' }
    else if d == 2 { '2' }
    else if d == 3 { '3' }
    else if d == 4 { '4' }
    else if d == 5 { '5' }
    else if d == 6 { '6' }
    else if d == 7 { '7' }
    else if d == 8 { '8' }
    else if d == 9 { '9' }
    else if d == 10 { 'a' }
    else if d == 11 { 'b' }
    else if d == 12 { 'c' }
    else if d == 13 { 'd' }
    else if d == 14 { 'e' }
    else { 'f' }
}

/// Whether a character is a lower-case hexadecimal digit, the only characters
/// a rule handle is made of.
pub open spec fn is_hex_char(c: char) -> bool {
    c == '0' || c == '1' || c == '2' || c == '3' || c == '4' || c == '5' || c == '6' || c == '7'
        || c == '8' || c == '9' || c == 'a' || c == 'b' || c == 'c' || c == 'd' || c == 'e'
        || c == 'f'
}

/// The `n` least-significant base-16 digits of `h`, least significant first.
pub open spec fn spec_digits(h: u64, n: nat) -> Seq<char>
    decreases n,
{
    if n == 0 {
        Seq::empty()
    } else {
        seq![hex_char(h % 16)] + spec_digits(h / 16, (n - 1) as nat)
    }
}

/// The rule handle derived from a network name: the first `MAX_HASH_SIZE`
/// base-16 digits of the name's FNV-1a hash.
pub open spec fn spec_network_hash(name: Seq<char>) -> Seq<char> {
    spec_digits(fnv1a(name), MAX_HASH_SIZE as nat)
}

/// Every digit sequence has exactly the requested length and holds only
/// hexadecimal characters.
pub proof fn lemma_digits_shape(h: u64, n: nat)
    ensures
        spec_digits(h, n).len() == n,
        forall|i: int| 0 <= i < n ==> is_hex_char(#[trigger] spec_digits(h, n)[i]),
    decreases n,
{
    if n > 0 {
        lemma_digits_shape(h / 16, (n - 1) as nat);
    }
}

/// The rule handle always has exactly `MAX_HASH_SIZE` characters, all of them
/// legal in firewall chain and rule names.
pub proof fn lemma_hash_shape(name: Seq<char>)
    ensures
        spec_network_hash(name).len() == MAX_HASH_SIZE,
        forall|i: int|
            0 <= i < MAX_HASH_SIZE ==> is_hex_char(#[trigger] spec_network_hash(name)[i]),
{
    lemma_digits_shape(fnv1a(name), MAX_HASH_SIZE as nat);
}

/// The rule handle is a pure function of the name alone: equal names yield
/// equal handles, across repeated calls, processes, and time.
pub proof fn lemma_hash_deterministic(a: Seq<char>, b: Seq<char>)
    requires
        a == b,
    ensures
        spec_network_hash(a) == spec_network_hash(b),
{
}

/// The single-character string for a hexadecimal digit.
fn hex_str(d: u64) -> (r: &'static str)
    requires
        d < 16,
    ensures
        r@ =~= seq![hex_char(d)],
{
    if d == 0 { proof { reveal_strlit("0"); } "0" }
    else if d == 1 { proof { reveal_strlit("1"); } "1" }
    else if d == 2 { proof { reveal_strlit("2"); } "2" }
    else if d == 3 { proof { reveal_strlit("3"); } "3" }
    else if d == 4 { proof { reveal_strlit("4"); } "4" }
    else if d == 5 { proof { reveal_strlit("5"); } "5" }
    else if d == 6 { proof { reveal_strlit("6"); } "6" }
    else if d == 7 { proof { reveal_strlit("7"); } "7" }
    else if d == 8 { proof { reveal_strlit("8"); } "8" }
    else if d == 9 { proof { reveal_strlit("9"); } "9" }
    else if d == 10 { proof { reveal_strlit("a"); } "a" }
    else if d == 11 { proof { reveal_strlit("b"); } "b" }
    else if d == 12 { proof { reveal_strlit("c"); } "c" }
    else if d == 13 { proof { reveal_strlit("d"); } "d" }
    else if d == 14 { proof { reveal_strlit("e"); } "e" }
    else { proof { reveal_strlit("f"); } "f" }
}

/// Derive the fixed-length rule handle for a network name.
pub fn create_network_hash(name: &str) -> (r: String)
    ensures
        r@ == spec_network_hash(name@),
        r@.len() == MAX_HASH_SIZE,
{
    let n = name.unicode_len();
    let mut h: u64 = FNV_OFFSET;
    let mut i: usize = 0;
    while i < n
        invariant
            i <= n,
            n == name@.len(),
            h == fnv1a(name@.take(i as int)),
        decreases n - i,
    {
        let c = name.get_char(i);
        let x: u64 = h ^ (c as u64);
        proof {
            assert((x as int) * (FNV_PRIME as int) <= (u64::MAX as int) * (FNV_PRIME as int))
                by (nonlinear_arith)
                requires
                    0 <= x <= u64::MAX as int,
            ;
        }
        let w: u128 = (x as u128) * (FNV_PRIME as u128);
        let h2: u64 = (w % 0x10000000000000000) as u64;
        proof {
            assert(h2 == fnv_step(h, c));
            assert(name@.take(i + 1).drop_last() =~= name@.take(i as int));
            assert(name@.take(i + 1).last() == name@[i as int]);
        }
        h = h2;
        i = i + 1;
    }
    proof {
        assert(name@.take(n as int) =~= name@);
    }
    let mut out = String::new();
    let mut acc: u64 = h;
    let mut j: usize = 0;
    while j < MAX_HASH_SIZE
        invariant
            j <= MAX_HASH_SIZE,
            out@.len() == j,
            spec_digits(fnv1a(name@), MAX_HASH_SIZE as nat) == out@ + spec_digits(
                acc,
                (MAX_HASH_SIZE - j) as nat,
            ),
        decreases MAX_HASH_SIZE - j,
    {
        let d: u64 = acc % 16;
        let ghost out0 = out@;
        out.append(hex_str(d));
        proof {
            assert(spec_digits(acc, (MAX_HASH_SIZE - j) as nat) == seq![hex_char(acc % 16)]
                + spec_digits(acc / 16, (MAX_HASH_SIZE - j - 1) as nat));
            assert(out0 + spec_digits(acc, (MAX_HASH_SIZE - j) as nat) =~= out@ + spec_digits(
                acc / 16,
                (MAX_HASH_SIZE - j - 1) as nat,
            ));
        }
        acc = acc / 16;
        j = j + 1;
    }
    proof {
        assert(out@ + spec_digits(acc, 0) =~= out@);
        lemma_hash_shape(name@);
    }
    out
}

} // verus!
