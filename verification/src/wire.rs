//! The grammar of name-value pairs: how lengths, pairs and runs of pairs are laid out in the
//! content of `Params`, `GetValues` and `GetValuesResult` records.

use crate::endian::{be32, be32_bytes, lemma_be32_of_bytes};
use vstd::prelude::*;

verus! {

/// One name with its value.
pub type Pair = (Seq<u8>, Seq<u8>);

/// The largest length that the grammar can express, plus one.
pub const LENGTH_LIMIT: usize = 0x8000_0000;

/// The bytes that spell a length: one byte below 128, else four bytes, big-endian, with the
/// high bit of the first one set.
#[verifier::opaque]
pub open spec fn len_encoding(n: nat) -> Seq<u8>
    recommends
        n < LENGTH_LIMIT,
{
    if n < 0x80 {
        seq![n as u8]
    } else {
        be32_bytes((n + 0x8000_0000) as u32)
    }
}

/// The length spelled at the front of `s`, with the count of bytes that spell it; `None`
/// where `s` ends before the length does.
#[verifier::opaque]
pub open spec fn parse_len(s: Seq<u8>) -> Option<(nat, nat)> {
    if s.len() == 0 {
        None
    } else if s[0] < 0x80 {
        Some((s[0] as nat, 1))
    } else if s.len() < 4 {
        None
    } else {
        Some(((be32(s[0], s[1], s[2], s[3]) - 0x8000_0000) as nat, 4))
    }
}

/// The bytes of one pair: both lengths, then the name, then the value.
pub open spec fn pair_encoding(pair: Pair) -> Seq<u8> {
    len_encoding(pair.0.len()) + len_encoding(pair.1.len()) + pair.0 + pair.1
}

/// The bytes of a run of pairs, one after the other.
pub open spec fn pairs_encoding(pairs: Seq<Pair>) -> Seq<u8>
    decreases pairs.len(),
{
    if pairs.len() == 0 {
        Seq::empty()
    } else {
        pair_encoding(pairs[0]) + pairs_encoding(pairs.skip(1))
    }
}

/// The pair at the front of `s`, with the count of bytes it takes; `None` where `s` ends
/// before the pair does.
pub open spec fn parse_pair(s: Seq<u8>) -> Option<(Pair, nat)> {
    match parse_len(s) {
        None => None,
        Some((name_len, a)) => match parse_len(s.skip(a as int)) {
            None => None,
            Some((value_len, b)) => {
                let start = (a + b) as int;
                let middle = start + name_len as int;
                let end = middle + value_len as int;
                if end <= s.len() {
                    Some(((s.subrange(start, middle), s.subrange(middle, end)), end as nat))
                } else {
                    None
                }
            },
        },
    }
}

/// The run of pairs that `s` consists of; `None` where `s` is not a whole number of pairs.
pub open spec fn parse_pairs(s: Seq<u8>) -> Option<Seq<Pair>>
    decreases s.len(),
{
    if s.len() == 0 {
        Some(Seq::empty())
    } else {
        match parse_pair(s) {
            None => None,
            Some((pair, n)) => if 0 < n <= s.len() {
                match parse_pairs(s.skip(n as int)) {
                    None => None,
                    Some(rest) => Some(seq![pair] + rest),
                }
            } else {
                None
            },
        }
    }
}

/// Whether every name and value of a run is short enough for its length to be spelled.
pub open spec fn pairs_encodable(pairs: Seq<Pair>) -> bool {
    forall|i: int|
        0 <= i < pairs.len() ==> (#[trigger] pairs[i]).0.len() < LENGTH_LIMIT && pairs[i].1.len()
            < LENGTH_LIMIT
}

/// A parsed length is below 2^31 and is spelled by one byte or four, all of them present.
pub proof fn lemma_parse_len_bounds(s: Seq<u8>)
    requires
        parse_len(s) is Some,
    ensures
        parse_len(s).unwrap().0 < LENGTH_LIMIT,
        parse_len(s).unwrap().1 == 1 || parse_len(s).unwrap().1 == 4,
        parse_len(s).unwrap().1 <= s.len(),
{
    reveal(parse_len);
}

/// A length takes one byte or four.
pub proof fn lemma_len_encoding_len(n: nat)
    ensures
        len_encoding(n).len() == if n < 0x80 {
            1nat
        } else {
            4nat
        },
{
    reveal(len_encoding);
}

/// The variable-length encoding of lengths can be read back: a length below 2^31, spelled
/// and followed by anything, parses to itself and to the number of bytes that spell it,
/// which is never more than four.
pub proof fn lemma_len_round_trip(n: nat, rest: Seq<u8>)
    requires
        n < LENGTH_LIMIT,
    ensures
        len_encoding(n).len() <= 4,
        parse_len(len_encoding(n) + rest) == Some((n, len_encoding(n).len())),
{
    reveal(len_encoding);
    reveal(parse_len);
    let s = len_encoding(n) + rest;
    if n < 0x80 {
        assert(s[0] == n as u8);
    } else {
        let m = (n + 0x8000_0000) as u32;
        lemma_be32_of_bytes(m);
        let b = be32_bytes(m);
        assert(s[0] == b[0] && s[1] == b[1] && s[2] == b[2] && s[3] == b[3]);
        assert(m / 0x100_0000 >= 0x80);
    }
}

/// Two different lengths are never spelled alike.
pub proof fn lemma_len_encoding_injective(n: nat, m: nat)
    requires
        n < LENGTH_LIMIT,
        m < LENGTH_LIMIT,
        len_encoding(n) == len_encoding(m),
    ensures
        n == m,
{
    lemma_len_round_trip(n, Seq::empty());
    lemma_len_round_trip(m, Seq::empty());
}

/// A pair, spelled and followed by anything, parses to itself and to the number of bytes
/// that spell it.
pub proof fn lemma_pair_round_trip(pair: Pair, rest: Seq<u8>)
    requires
        pair.0.len() < LENGTH_LIMIT,
        pair.1.len() < LENGTH_LIMIT,
    ensures
        parse_pair(pair_encoding(pair) + rest) == Some((pair, pair_encoding(pair).len())),
{
    let name_len = pair.0.len();
    let value_len = pair.1.len();
    let s = pair_encoding(pair) + rest;
    let a = len_encoding(name_len).len();
    let b = len_encoding(value_len).len();
    lemma_len_encoding_len(name_len);
    lemma_len_encoding_len(value_len);
    let tail1 = len_encoding(value_len) + pair.0 + pair.1 + rest;
    let tail2 = pair.0 + pair.1 + rest;
    assert(s =~= len_encoding(name_len) + tail1);
    lemma_len_round_trip(name_len, tail1);
    assert(s.skip(a as int) =~= len_encoding(value_len) + tail2);
    lemma_len_round_trip(value_len, tail2);
    let start = (a + b) as int;
    let middle = start + name_len as int;
    assert(s.subrange(start, middle) =~= pair.0);
    assert(s.subrange(middle, middle + value_len as int) =~= pair.1);
}

/// Spelling two runs one after the other spells their concatenation.
pub proof fn lemma_pairs_encoding_concat(a: Seq<Pair>, b: Seq<Pair>)
    ensures
        pairs_encoding(a + b) == pairs_encoding(a) + pairs_encoding(b),
    decreases a.len(),
{
    if a.len() == 0 {
        assert(a + b =~= b);
        assert(pairs_encoding(a) + pairs_encoding(b) =~= pairs_encoding(b));
    } else {
        lemma_pairs_encoding_concat(a.skip(1), b);
        assert((a + b).skip(1) =~= a.skip(1) + b);
        assert((a + b)[0] == a[0]);
        assert(pairs_encoding(a + b) =~= pairs_encoding(a) + pairs_encoding(b));
    }
}

/// Spelling a run with one more pair at its end appends the spelling of that pair.
pub proof fn lemma_pairs_encoding_push(pairs: Seq<Pair>, pair: Pair)
    ensures
        pairs_encoding(pairs.push(pair)) == pairs_encoding(pairs) + pair_encoding(pair),
{
    lemma_pairs_encoding_concat(pairs, seq![pair]);
    assert(pairs.push(pair) =~= pairs + seq![pair]);
    assert(seq![pair].skip(1) =~= Seq::<Pair>::empty());
    assert(pairs_encoding(seq![pair]) =~= pair_encoding(pair)) by {
        reveal_with_fuel(pairs_encoding, 2);
    }
}

/// A run of pairs whose lengths can be spelled parses, once spelled, to itself.
pub proof fn lemma_pairs_round_trip(pairs: Seq<Pair>)
    requires
        pairs_encodable(pairs),
    ensures
        parse_pairs(pairs_encoding(pairs)) == Some(pairs),
    decreases pairs.len(),
{
    if pairs.len() == 0 {
        assert(pairs =~= Seq::empty());
    } else {
        let rest = pairs.skip(1);
        assert forall|i: int| 0 <= i < rest.len() implies (#[trigger] rest[i]).0.len()
            < LENGTH_LIMIT && rest[i].1.len() < LENGTH_LIMIT by {
            assert(rest[i] == pairs[i + 1]);
        }
        lemma_pairs_round_trip(rest);
        let s = pairs_encoding(pairs);
        let n = pair_encoding(pairs[0]).len();
        lemma_pair_round_trip(pairs[0], pairs_encoding(rest));
        lemma_len_encoding_len(pairs[0].0.len());
        assert(s.skip(n as int) =~= pairs_encoding(rest));
        assert(seq![pairs[0]] + rest =~= pairs);
    }
}

} // verus!
