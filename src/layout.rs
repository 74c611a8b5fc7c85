use vstd::prelude::*;
use vstd::utf8::{encode_utf8, encode_utf8_decode_utf8, encode_utf8_valid_utf8};

use crate::decode::{
    parse_client_list, parse_detailed, parse_detailed_list, parse_info, parse_pairs,
    parse_players, parse_rules,
};
use crate::packet::le16_bytes;
use crate::reader::{i32_of, le16, le32, take_i32, take_str, take_u16, take_u32, take_u8};
use crate::types::rules_map;

verus! {

/// Four bytes holding `x` little-endian.
pub open spec fn le32_bytes(x: u32) -> Seq<u8> {
    seq![(x % 256) as u8, ((x / 256) % 256) as u8, ((x / 65536) % 256) as u8, (x / 16777216) as u8]
}

/// The two's-complement bit pattern of `v`.
pub open spec fn bits_of(v: i32) -> u32 {
    if v >= 0 {
        v as u32
    } else {
        (v as int + 0x1_0000_0000) as u32
    }
}

/// A string on the wire after a one-byte length.
pub open spec fn str8_bytes(s: Seq<char>) -> Seq<u8> {
    seq![encode_utf8(s).len() as u8] + encode_utf8(s)
}

/// A string on the wire after a four-byte little-endian length.
pub open spec fn str32_bytes(s: Seq<char>) -> Seq<u8> {
    le32_bytes(encode_utf8(s).len() as u32) + encode_utf8(s)
}

/// The information payload that carries `v`.
pub open spec fn info_bytes(v: (bool, u16, u16, Seq<char>, Seq<char>, Seq<char>)) -> Seq<u8> {
    seq![if v.0 { 1u8 } else { 0u8 }] + (le16_bytes(v.1) + (le16_bytes(v.2) + (str32_bytes(v.3) + (
    str32_bytes(v.4) + str32_bytes(v.5)))))
}

/// The name/value pairs of a rules payload, after its count.
pub open spec fn pairs_bytes(s: Seq<(Seq<char>, Seq<char>)>) -> Seq<u8>
    decreases s.len(),
{
    if s.len() == 0 {
        seq![]
    } else {
        pairs_bytes(s.drop_last()) + (str8_bytes(s.last().0) + str8_bytes(s.last().1))
    }
}

/// The players of a client-list payload, after its count.
pub open spec fn players_bytes(s: Seq<(Seq<char>, i32)>) -> Seq<u8>
    decreases s.len(),
{
    if s.len() == 0 {
        seq![]
    } else {
        players_bytes(s.drop_last()) + (str8_bytes(s.last().0) + le32_bytes(bits_of(s.last().1)))
    }
}

/// The players of a detailed-player payload, after its count.
pub open spec fn detailed_bytes(s: Seq<(u8, Seq<char>, i32, u32)>) -> Seq<u8>
    decreases s.len(),
{
    if s.len() == 0 {
        seq![]
    } else {
        detailed_bytes(s.drop_last()) + (seq![s.last().0] + (str8_bytes(s.last().1) + (le32_bytes(
        bits_of(s.last().2)) + le32_bytes(s.last().3))))
    }
}

/// The rules payload that carries the pairs `s`.
pub open spec fn rules_bytes(s: Seq<(Seq<char>, Seq<char>)>) -> Seq<u8> {
    le16_bytes(s.len() as u16) + pairs_bytes(s)
}

/// The client-list payload that carries the players `s`.
pub open spec fn client_list_bytes(s: Seq<(Seq<char>, i32)>) -> Seq<u8> {
    le16_bytes(s.len() as u16) + players_bytes(s)
}

/// The detailed-player payload that carries the players `s`.
pub open spec fn detailed_list_bytes(s: Seq<(u8, Seq<char>, i32, u32)>) -> Seq<u8> {
    le16_bytes(s.len() as u16) + detailed_bytes(s)
}

/// A string fits a one-byte length prefix.
pub open spec fn fits8(s: Seq<char>) -> bool {
    encode_utf8(s).len() <= 255
}

/// A string fits within the largest accepted length.
pub open spec fn fits_max(s: Seq<char>) -> bool {
    encode_utf8(s).len() <= 2048
}

proof fn lemma_assoc(a: Seq<u8>, b: Seq<u8>, c: Seq<u8>)
    ensures
        (a + b) + c == a + (b + c),
{
    assert((a + b) + c =~= a + (b + c));
}

proof fn lemma_skip(b: Seq<u8>, p: int, a: Seq<u8>, rest: Seq<u8>)
    requires
        0 <= p <= b.len(),
        b.subrange(p, b.len() as int) == a + rest,
    ensures
        p + a.len() <= b.len(),
        b.subrange(p + a.len(), b.len() as int) == rest,
        forall|i: int| 0 <= i < a.len() ==> b[p + i] == a[i],
{
    let t = b.subrange(p, b.len() as int);
    assert(t.len() == a.len() + rest.len());
    assert forall|i: int| 0 <= i < a.len() implies b[p + i] == a[i] by {
        assert(t[i] == a[i]);
    }
    assert forall|i: int| 0 <= i < rest.len() implies b.subrange(p + a.len(), b.len() as int)[i] == rest[i] by {
        assert(t[a.len() + i] == rest[i]);
    }
    assert(b.subrange(p + a.len(), b.len() as int) =~= rest);
}

proof fn lemma_take_u8(b: Seq<u8>, p: int, x: u8, rest: Seq<u8>)
    requires
        0 <= p <= b.len(),
        b.subrange(p, b.len() as int) == seq![x] + rest,
    ensures
        take_u8(b, p) == Ok::<(u8, int), crate::error::Error>((x, p + 1)),
        b.subrange(p + 1, b.len() as int) == rest,
{
    lemma_skip(b, p, seq![x], rest);
    assert(b[p + 0] == seq![x][0]);
}

proof fn lemma_take_u16(b: Seq<u8>, p: int, x: u16, rest: Seq<u8>)
    requires
        0 <= p <= b.len(),
        b.subrange(p, b.len() as int) == le16_bytes(x) + rest,
    ensures
        take_u16(b, p) == Ok::<(u16, int), crate::error::Error>((x, p + 2)),
        b.subrange(p + 2, b.len() as int) == rest,
{
    lemma_skip(b, p, le16_bytes(x), rest);
    assert(b[p + 0] == le16_bytes(x)[0]);
    assert(b[p + 1] == le16_bytes(x)[1]);
    assert(le16(b, p) == x);
}

proof fn lemma_take_u32(b: Seq<u8>, p: int, x: u32, rest: Seq<u8>)
    requires
        0 <= p <= b.len(),
        b.subrange(p, b.len() as int) == le32_bytes(x) + rest,
    ensures
        take_u32(b, p) == Ok::<(u32, int), crate::error::Error>((x, p + 4)),
        b.subrange(p + 4, b.len() as int) == rest,
{
    lemma_skip(b, p, le32_bytes(x), rest);
    assert(b[p + 0] == le32_bytes(x)[0]);
    assert(b[p + 1] == le32_bytes(x)[1]);
    assert(b[p + 2] == le32_bytes(x)[2]);
    assert(b[p + 3] == le32_bytes(x)[3]);
    assert(le32(b, p) == x);
}

proof fn lemma_take_i32(b: Seq<u8>, p: int, v: i32, rest: Seq<u8>)
    requires
        0 <= p <= b.len(),
        b.subrange(p, b.len() as int) == le32_bytes(bits_of(v)) + rest,
    ensures
        take_i32(b, p) == Ok::<(i32, int), crate::error::Error>((v, p + 4)),
        b.subrange(p + 4, b.len() as int) == rest,
{
    lemma_take_u32(b, p, bits_of(v), rest);
    assert(i32_of(bits_of(v)) == v);
}

proof fn lemma_take_text(b: Seq<u8>, start: int, s: Seq<char>, rest: Seq<u8>)
    requires
        0 <= start <= b.len(),
        b.subrange(start, b.len() as int) == encode_utf8(s) + rest,
    ensures
        start + encode_utf8(s).len() <= b.len(),
        b.subrange(start, start + encode_utf8(s).len()) == encode_utf8(s),
        valid_utf8_of(s),
        b.subrange(start + encode_utf8(s).len(), b.len() as int) == rest,
{
    let e = encode_utf8(s);
    lemma_skip(b, start, e, rest);
    assert(b.subrange(start, start + e.len()) =~= e);
    encode_utf8_valid_utf8(s);
    encode_utf8_decode_utf8(s);
}

/// The UTF-8 encoding of `s` is valid and decodes back to `s`.
spec fn valid_utf8_of(s: Seq<char>) -> bool {
    vstd::utf8::valid_utf8(encode_utf8(s)) && vstd::utf8::decode_utf8(encode_utf8(s)) == s
}

proof fn lemma_take_str8(b: Seq<u8>, p: int, s: Seq<char>, rest: Seq<u8>)
    requires
        0 <= p <= b.len(),
        fits8(s),
        b.subrange(p, b.len() as int) == str8_bytes(s) + rest,
    ensures
        take_str(b, p, 1) == Ok::<(Seq<char>, int), crate::error::Error>((s, p + str8_bytes(s).len())),
        b.subrange(p + str8_bytes(s).len(), b.len() as int) == rest,
{
    reveal(take_str);
    let e = encode_utf8(s);
    assert(str8_bytes(s) + rest =~= seq![e.len() as u8] + (e + rest));
    lemma_take_u8(b, p, e.len() as u8, e + rest);
    lemma_take_text(b, p + 1, s, rest);
}

proof fn lemma_take_str32(b: Seq<u8>, p: int, s: Seq<char>, rest: Seq<u8>)
    requires
        0 <= p <= b.len(),
        fits_max(s),
        b.subrange(p, b.len() as int) == str32_bytes(s) + rest,
    ensures
        take_str(b, p, 4) == Ok::<(Seq<char>, int), crate::error::Error>((s, p + str32_bytes(s).len())),
        b.subrange(p + str32_bytes(s).len(), b.len() as int) == rest,
{
    reveal(take_str);
    let e = encode_utf8(s);
    assert(str32_bytes(s) + rest =~= le32_bytes(e.len() as u32) + (e + rest));
    lemma_take_u32(b, p, e.len() as u32, e + rest);
    lemma_take_text(b, p + 4, s, rest);
}

proof fn lemma_info_fields(v: (bool, u16, u16, Seq<char>, Seq<char>, Seq<char>), extra: Seq<u8>)
    requires
        fits_max(v.3),
        fits_max(v.4),
        fits_max(v.5),
    ensures
        ({
            let b = info_bytes(v) + extra;
            let p4: int = 5 + str32_bytes(v.3).len() as int;
            let p5: int = p4 + str32_bytes(v.4).len() as int;
            &&& take_u8(b, 0) == Ok::<(u8, int), crate::error::Error>((if v.0 { 1u8 } else { 0u8 }, 1))
            &&& take_u16(b, 1) == Ok::<(u16, int), crate::error::Error>((v.1, 3))
            &&& take_u16(b, 3) == Ok::<(u16, int), crate::error::Error>((v.2, 5))
            &&& take_str(b, 5, 4) == Ok::<(Seq<char>, int), crate::error::Error>((v.3, p4))
            &&& take_str(b, p4, 4) == Ok::<(Seq<char>, int), crate::error::Error>((v.4, p5))
            &&& take_str(b, p5, 4) == Ok::<(Seq<char>, int), crate::error::Error>((v.5, p5 + str32_bytes(v.5).len() as int))
        }),
{
    let b = info_bytes(v) + extra;
    let pw: u8 = if v.0 { 1 } else { 0 };
    let r5 = str32_bytes(v.5) + extra;
    let r4 = str32_bytes(v.4) + r5;
    let r3 = str32_bytes(v.3) + r4;
    let r2 = le16_bytes(v.2) + r3;
    let r1 = le16_bytes(v.1) + r2;
    let a4 = str32_bytes(v.4) + str32_bytes(v.5);
    let a3 = str32_bytes(v.3) + a4;
    let a2 = le16_bytes(v.2) + a3;
    let a1 = le16_bytes(v.1) + a2;
    lemma_assoc(seq![pw], a1, extra);
    lemma_assoc(le16_bytes(v.1), a2, extra);
    lemma_assoc(le16_bytes(v.2), a3, extra);
    lemma_assoc(str32_bytes(v.3), a4, extra);
    lemma_assoc(str32_bytes(v.4), str32_bytes(v.5), extra);
    assert(b.subrange(0, b.len() as int) =~= b);
    lemma_take_u8(b, 0, pw, r1);
    lemma_take_u16(b, 1, v.1, r2);
    lemma_take_u16(b, 3, v.2, r3);
    lemma_take_str32(b, 5, v.3, r4);
    let p4: int = 5 + str32_bytes(v.3).len() as int;
    lemma_take_str32(b, p4, v.4, r5);
    let p5: int = p4 + str32_bytes(v.4).len();
    lemma_take_str32(b, p5, v.5, extra);
}

/// Decoding the information payload built from any field values, followed by
/// any bytes, gives back those values.
pub proof fn lemma_info_round_trip(v: (bool, u16, u16, Seq<char>, Seq<char>, Seq<char>), extra: Seq<u8>)
    requires
        fits_max(v.3),
        fits_max(v.4),
        fits_max(v.5),
    ensures
        parse_info(info_bytes(v) + extra) == Ok::<_, crate::error::Error>(v),
{
    lemma_info_fields(v, extra);
}

proof fn lemma_pairs(b: Seq<u8>, p: int, s: Seq<(Seq<char>, Seq<char>)>, rest: Seq<u8>)
    requires
        0 <= p <= b.len(),
        forall|i: int| #![trigger s[i]] 0 <= i < s.len() ==> fits8(s[i].0) && fits8(s[i].1),
        b.subrange(p, b.len() as int) == pairs_bytes(s) + rest,
    ensures
        parse_pairs(b, p, s.len()) == Ok::<_, crate::error::Error>((s, p + pairs_bytes(s).len())),
        b.subrange(p + pairs_bytes(s).len(), b.len() as int) == rest,
    decreases s.len(),
{
    if s.len() == 0 {
        assert(pairs_bytes(s) + rest =~= rest);
        assert(s =~= Seq::empty());
    } else {
        let d = s.drop_last();
        let x = s.last();
        let r2 = str8_bytes(x.1) + rest;
        let r1 = str8_bytes(x.0) + r2;
        assert(pairs_bytes(s) + rest =~= pairs_bytes(d) + r1);
        assert forall|i: int| #![trigger d[i]] 0 <= i < d.len() implies fits8(d[i].0) && fits8(d[i].1) by {
            assert(d[i] == s[i]);
        }
        assert(fits8(s[s.len() - 1].0));
        lemma_pairs(b, p, d, r1);
        let q: int = p + pairs_bytes(d).len();
        lemma_take_str8(b, q, x.0, r2);
        lemma_take_str8(b, q + str8_bytes(x.0).len(), x.1, rest);
        assert(pairs_bytes(s).len() == pairs_bytes(d).len() + str8_bytes(x.0).len() + str8_bytes(x.1).len());
        assert(parse_pairs(b, p, (s.len() - 1) as nat) == parse_pairs(b, p, d.len()));
        assert(d.push(x) =~= s);
    }
}

proof fn lemma_players(b: Seq<u8>, p: int, s: Seq<(Seq<char>, i32)>, rest: Seq<u8>)
    requires
        0 <= p <= b.len(),
        forall|i: int| #![trigger s[i]] 0 <= i < s.len() ==> fits8(s[i].0),
        b.subrange(p, b.len() as int) == players_bytes(s) + rest,
    ensures
        parse_players(b, p, s.len()) == Ok::<_, crate::error::Error>((s, p + players_bytes(s).len())),
        b.subrange(p + players_bytes(s).len(), b.len() as int) == rest,
    decreases s.len(),
{
    if s.len() == 0 {
        assert(players_bytes(s) + rest =~= rest);
        assert(s =~= Seq::empty());
    } else {
        let d = s.drop_last();
        let x = s.last();
        let r2 = le32_bytes(bits_of(x.1)) + rest;
        let r1 = str8_bytes(x.0) + r2;
        assert(players_bytes(s) + rest =~= players_bytes(d) + r1);
        assert forall|i: int| #![trigger d[i]] 0 <= i < d.len() implies fits8(d[i].0) by {
            assert(d[i] == s[i]);
        }
        assert(fits8(s[s.len() - 1].0));
        lemma_players(b, p, d, r1);
        let q: int = p + players_bytes(d).len();
        lemma_take_str8(b, q, x.0, r2);
        lemma_take_i32(b, q + str8_bytes(x.0).len(), x.1, rest);
        assert(players_bytes(s).len() == players_bytes(d).len() + str8_bytes(x.0).len() + 4);
        assert(parse_players(b, p, (s.len() - 1) as nat) == parse_players(b, p, d.len()));
        assert(d.push(x) =~= s);
    }
}

proof fn lemma_detailed(b: Seq<u8>, p: int, s: Seq<(u8, Seq<char>, i32, u32)>, rest: Seq<u8>)
    requires
        0 <= p <= b.len(),
        forall|i: int| #![trigger s[i]] 0 <= i < s.len() ==> fits8(s[i].1),
        b.subrange(p, b.len() as int) == detailed_bytes(s) + rest,
    ensures
        parse_detailed(b, p, s.len()) == Ok::<_, crate::error::Error>((s, p + detailed_bytes(s).len())),
        b.subrange(p + detailed_bytes(s).len(), b.len() as int) == rest,
    decreases s.len(),
{
    if s.len() == 0 {
        assert(detailed_bytes(s) + rest =~= rest);
        assert(s =~= Seq::empty());
    } else {
        let d = s.drop_last();
        let x = s.last();
        let r4 = le32_bytes(x.3) + rest;
        let r3 = le32_bytes(bits_of(x.2)) + r4;
        let r2 = str8_bytes(x.1) + r3;
        let r1 = seq![x.0] + r2;
        assert(detailed_bytes(s) + rest =~= detailed_bytes(d) + r1);
        assert forall|i: int| #![trigger d[i]] 0 <= i < d.len() implies fits8(d[i].1) by {
            assert(d[i] == s[i]);
        }
        assert(fits8(s[s.len() - 1].1));
        lemma_detailed(b, p, d, r1);
        let q: int = p + detailed_bytes(d).len();
        lemma_take_u8(b, q, x.0, r2);
        lemma_take_str8(b, q + 1, x.1, r3);
        let q3: int = q + 1 + str8_bytes(x.1).len();
        lemma_take_i32(b, q3, x.2, r4);
        lemma_take_u32(b, q3 + 4, x.3, rest);
        assert(detailed_bytes(s).len() == detailed_bytes(d).len() + 1 + str8_bytes(x.1).len() + 8);
        assert(parse_detailed(b, p, (s.len() - 1) as nat) == parse_detailed(b, p, d.len()));
        assert(d.push(x) =~= s);
    }
}

/// Decoding the rules payload built from any pairs, followed by any bytes,
/// gives the mapping of those pairs, a later name overwriting an earlier one.
pub proof fn lemma_rules_round_trip(s: Seq<(Seq<char>, Seq<char>)>, extra: Seq<u8>)
    requires
        s.len() <= 0xFFFF,
        forall|i: int| #![trigger s[i]] 0 <= i < s.len() ==> fits8(s[i].0) && fits8(s[i].1),
    ensures
        parse_rules(rules_bytes(s) + extra) == Ok::<_, crate::error::Error>(rules_map(s)),
{
    let b = rules_bytes(s) + extra;
    let r1 = pairs_bytes(s) + extra;
    assert(b.subrange(0, b.len() as int) =~= le16_bytes(s.len() as u16) + r1);
    lemma_take_u16(b, 0, s.len() as u16, r1);
    lemma_pairs(b, 2, s, extra);
}

/// Decoding the client-list payload built from any players, followed by any
/// bytes, gives back those players in order.
pub proof fn lemma_client_list_round_trip(s: Seq<(Seq<char>, i32)>, extra: Seq<u8>)
    requires
        s.len() <= 0xFFFF,
        forall|i: int| #![trigger s[i]] 0 <= i < s.len() ==> fits8(s[i].0),
    ensures
        parse_client_list(client_list_bytes(s) + extra) == Ok::<_, crate::error::Error>(s),
{
    let b = client_list_bytes(s) + extra;
    let r1 = players_bytes(s) + extra;
    assert(b.subrange(0, b.len() as int) =~= le16_bytes(s.len() as u16) + r1);
    lemma_take_u16(b, 0, s.len() as u16, r1);
    lemma_players(b, 2, s, extra);
}

/// Decoding the detailed-player payload built from any players, followed by
/// any bytes, gives back those players in order.
pub proof fn lemma_detailed_round_trip(s: Seq<(u8, Seq<char>, i32, u32)>, extra: Seq<u8>)
    requires
        s.len() <= 0xFFFF,
        forall|i: int| #![trigger s[i]] 0 <= i < s.len() ==> fits8(s[i].1),
    ensures
        parse_detailed_list(detailed_list_bytes(s) + extra) == Ok::<_, crate::error::Error>(s),
{
    let b = detailed_list_bytes(s) + extra;
    let r1 = detailed_bytes(s) + extra;
    assert(b.subrange(0, b.len() as int) =~= le16_bytes(s.len() as u16) + r1);
    lemma_take_u16(b, 0, s.len() as u16, r1);
    lemma_detailed(b, 2, s, extra);
}

} // verus!
