//! How bytes travel in JSON: as UTF-8 text when they are valid UTF-8, or
//! as base64 (standard alphabet, with padding).
//!
//! Text is spoken of by its UTF-8 bytes: `encode_utf8(s@)` for a `String`
//! `s`.
use vstd::prelude::*;
use vstd::string::StringExecFns;
use vstd::utf8::{
    encode_utf8, is_leading_byte_width_1, partial_valid_utf8, partial_valid_utf8_extend_ascii_block,
    valid_utf8,
};

verus! {

/// The base64 symbol of a six-bit value.
pub open spec fn b64_symbol(v: int) -> u8 {
    if v < 26 {
        (65 + v) as u8
    } else if v < 52 {
        (97 + v - 26) as u8
    } else if v < 62 {
        (48 + v - 52) as u8
    } else if v == 62 {
        43u8
    } else {
        47u8
    }
}

/// The six-bit value of a base64 symbol, `None` for any other byte.
pub open spec fn b64_value(c: u8) -> Option<int> {
    if 65 <= c <= 90 {
        Some(c - 65)
    } else if 97 <= c <= 122 {
        Some(c - 97 + 26)
    } else if 48 <= c <= 57 {
        Some(c - 48 + 52)
    } else if c == 43 {
        Some(62)
    } else if c == 47 {
        Some(63)
    } else {
        None
    }
}

/// Law: base64 uses the standard alphabet of RFC 4648: the six-bit values
/// 0 to 63 are written `A`..`Z`, `a`..`z`, `0`..`9`, `+`, `/` in that
/// order, and reading a symbol gives back exactly the value written with
/// it; any other byte is no symbol.
pub proof fn lemma_b64_standard_alphabet(v: int, c: u8)
    requires
        0 <= v < 64,
    ensures
        0 <= v < 26 ==> b64_symbol(v) as int == ('A' as int) + v,
        26 <= v < 52 ==> b64_symbol(v) as int == ('a' as int) + (v - 26),
        52 <= v < 62 ==> b64_symbol(v) as int == ('0' as int) + (v - 52),
        v == 62 ==> b64_symbol(v) as int == '+' as int,
        v == 63 ==> b64_symbol(v) as int == '/' as int,
        b64_value(c) == Some(v) <==> b64_symbol(v) == c,
        b64_value(c) is Some ==> 0 <= b64_value(c).unwrap() < 64,
{
}

/// The padding byte `=`.
pub open spec fn b64_pad() -> u8 {
    61u8
}

/// The base64 text of `b`, as bytes.
pub open spec fn base64_encode(b: Seq<u8>) -> Seq<u8>
    decreases b.len(),
{
    if b.len() == 0 {
        seq![]
    } else if b.len() == 1 {
        seq![b64_symbol((b[0] as int) / 4), b64_symbol(((b[0] as int) % 4) * 16), b64_pad(), b64_pad()]
    } else if b.len() == 2 {
        seq![
            b64_symbol((b[0] as int) / 4),
            b64_symbol(((b[0] as int) % 4) * 16 + (b[1] as int) / 16),
            b64_symbol(((b[1] as int) % 16) * 4),
            b64_pad(),
        ]
    } else {
        seq![
            b64_symbol((b[0] as int) / 4),
            b64_symbol(((b[0] as int) % 4) * 16 + (b[1] as int) / 16),
            b64_symbol(((b[1] as int) % 16) * 4 + (b[2] as int) / 64),
            b64_symbol((b[2] as int) % 64),
        ] + base64_encode(b.skip(3))
    }
}

/// The bytes of one group of four symbols, the last group when padded.
pub open spec fn base64_decode_group(s: Seq<u8>, is_last: bool) -> Option<Seq<u8>> {
    let v0 = b64_value(s[0]);
    let v1 = b64_value(s[1]);
    let v2 = b64_value(s[2]);
    let v3 = b64_value(s[3]);
    if v0 is None || v1 is None {
        None
    } else if is_last && s[2] == b64_pad() && s[3] == b64_pad() {
        if v1.unwrap() % 16 == 0 {
            Some(seq![(v0.unwrap() * 4 + v1.unwrap() / 16) as u8])
        } else {
            None
        }
    } else if v2 is None {
        None
    } else if is_last && s[3] == b64_pad() {
        if v2.unwrap() % 4 == 0 {
            Some(
                seq![
                    (v0.unwrap() * 4 + v1.unwrap() / 16) as u8,
                    ((v1.unwrap() % 16) * 16 + v2.unwrap() / 4) as u8,
                ],
            )
        } else {
            None
        }
    } else if v3 is None {
        None
    } else {
        Some(
            seq![
                (v0.unwrap() * 4 + v1.unwrap() / 16) as u8,
                ((v1.unwrap() % 16) * 16 + v2.unwrap() / 4) as u8,
                ((v2.unwrap() % 4) * 64 + v3.unwrap()) as u8,
            ],
        )
    }
}

/// The bytes whose base64 text is `s`, `None` when `s` is not the base64
/// text of any bytes (bad symbols, bad length, misplaced padding, or
/// leftover bits that are not zero).
pub open spec fn base64_decode(s: Seq<u8>) -> Option<Seq<u8>>
    decreases s.len(),
{
    if s.len() == 0 {
        Some(seq![])
    } else if s.len() < 4 {
        None
    } else {
        match base64_decode_group(s.take(4), s.len() == 4) {
            None => None,
            Some(group) => match base64_decode(s.skip(4)) {
                None => None,
                Some(rest) => Some(group + rest),
            },
        }
    }
}

proof fn lemma_symbol_value(v: int)
    requires
        0 <= v < 64,
    ensures
        b64_value(b64_symbol(v)) == Some(v),
        b64_symbol(v) < 128,
        b64_symbol(v) != b64_pad(),
{
}

proof fn lemma_value_symbol(c: u8)
    requires
        b64_value(c) is Some,
    ensures
        0 <= b64_value(c).unwrap() < 64,
        b64_symbol(b64_value(c).unwrap()) == c,
{
}

proof fn lemma_split_three(b0: int, b1: int, b2: int)
    requires
        0 <= b0 < 256,
        0 <= b1 < 256,
        0 <= b2 < 256,
    ensures
        (b0 / 4) * 4 + ((b0 % 4) * 16 + b1 / 16) / 16 == b0,
        (((b0 % 4) * 16 + b1 / 16) % 16) * 16 + ((b1 % 16) * 4 + b2 / 64) / 4 == b1,
        (((b1 % 16) * 4 + b2 / 64) % 4) * 64 + b2 % 64 == b2,
        0 <= (b0 % 4) * 16 + b1 / 16 < 64,
        0 <= (b1 % 16) * 4 + b2 / 64 < 64,
        ((b0 % 4) * 16) % 16 == 0,
        ((b1 % 16) * 4) % 4 == 0,
        (b0 / 4) * 4 + ((b0 % 4) * 16) / 16 == b0,
        (((b0 % 4) * 16 + b1 / 16) % 16) * 16 + ((b1 % 16) * 4) / 4 == b1,
{
    assert((b0 / 4) * 4 + ((b0 % 4) * 16 + b1 / 16) / 16 == b0) by (nonlinear_arith)
        requires
            0 <= b0 < 256,
            0 <= b1 < 256,
    ;
    assert((((b0 % 4) * 16 + b1 / 16) % 16) * 16 + ((b1 % 16) * 4 + b2 / 64) / 4 == b1)
        by (nonlinear_arith)
        requires
            0 <= b0 < 256,
            0 <= b1 < 256,
            0 <= b2 < 256,
    ;
    assert((((b1 % 16) * 4 + b2 / 64) % 4) * 64 + b2 % 64 == b2) by (nonlinear_arith)
        requires
            0 <= b1 < 256,
            0 <= b2 < 256,
    ;
    assert((b0 / 4) * 4 + ((b0 % 4) * 16) / 16 == b0) by (nonlinear_arith)
        requires
            0 <= b0 < 256,
    ;
    assert((((b0 % 4) * 16 + b1 / 16) % 16) * 16 + ((b1 % 16) * 4) / 4 == b1)
        by (nonlinear_arith)
        requires
            0 <= b0 < 256,
            0 <= b1 < 256,
    ;
}

proof fn lemma_join_values(a: int, b: int, c: int, d: int)
    requires
        0 <= a < 64,
        0 <= b < 64,
        0 <= c < 64,
        0 <= d < 64,
    ensures
        0 <= a * 4 + b / 16 < 256,
        0 <= (b % 16) * 16 + c / 4 < 256,
        0 <= (c % 4) * 64 + d < 256,
        (a * 4 + b / 16) / 4 == a,
        ((a * 4 + b / 16) % 4) * 16 + ((b % 16) * 16 + c / 4) / 16 == b,
        (((b % 16) * 16 + c / 4) % 16) * 4 + ((c % 4) * 64 + d) / 64 == c,
        ((c % 4) * 64 + d) % 64 == d,
        b % 16 == 0 ==> ((a * 4 + b / 16) % 4) * 16 == b,
        c % 4 == 0 ==> (((b % 16) * 16 + c / 4) % 16) * 4 == c,
{
    assert(0 <= a * 4 + b / 16 < 256 && (a * 4 + b / 16) / 4 == a) by (nonlinear_arith)
        requires
            0 <= a < 64,
            0 <= b < 64,
    ;
    assert(0 <= (b % 16) * 16 + c / 4 < 256) by (nonlinear_arith)
        requires
            0 <= b < 64,
            0 <= c < 64,
    ;
    assert(0 <= (c % 4) * 64 + d < 256 && ((c % 4) * 64 + d) % 64 == d) by (nonlinear_arith)
        requires
            0 <= c < 64,
            0 <= d < 64,
    ;
    assert(((a * 4 + b / 16) % 4) * 16 + ((b % 16) * 16 + c / 4) / 16 == b) by (nonlinear_arith)
        requires
            0 <= a < 64,
            0 <= b < 64,
            0 <= c < 64,
    ;
    assert((((b % 16) * 16 + c / 4) % 16) * 4 + ((c % 4) * 64 + d) / 64 == c) by (nonlinear_arith)
        requires
            0 <= b < 64,
            0 <= c < 64,
            0 <= d < 64,
    ;
    assert(b % 16 == 0 ==> ((a * 4 + b / 16) % 4) * 16 == b) by (nonlinear_arith)
        requires
            0 <= a < 64,
            0 <= b < 64,
    ;
    assert(c % 4 == 0 ==> (((b % 16) * 16 + c / 4) % 16) * 4 == c) by (nonlinear_arith)
        requires
            0 <= b < 64,
            0 <= c < 64,
    ;
}

proof fn lemma_group_one(x0: u8)
    ensures
        base64_decode_group(
            seq![b64_symbol(x0 as int / 4), b64_symbol((x0 as int % 4) * 16), b64_pad(), b64_pad()],
            true,
        ) == Some(seq![x0]),
{
    let a = x0 as int / 4;
    let b = (x0 as int % 4) * 16;
    lemma_split_three(x0 as int, 0, 0);
    lemma_symbol_value(a);
    lemma_symbol_value(b);
    let g = seq![b64_symbol(a), b64_symbol(b), b64_pad(), b64_pad()];
    assert(g[2] == b64_pad() && g[3] == b64_pad());
    assert(seq![(a * 4 + b / 16) as u8] =~= seq![x0]);
}

proof fn lemma_group_two(x0: u8, x1: u8)
    ensures
        base64_decode_group(
            seq![
                b64_symbol(x0 as int / 4),
                b64_symbol((x0 as int % 4) * 16 + x1 as int / 16),
                b64_symbol((x1 as int % 16) * 4),
                b64_pad(),
            ],
            true,
        ) == Some(seq![x0, x1]),
{
    let a = x0 as int / 4;
    let b = (x0 as int % 4) * 16 + x1 as int / 16;
    let c = (x1 as int % 16) * 4;
    lemma_split_three(x0 as int, x1 as int, 0);
    lemma_symbol_value(a);
    lemma_symbol_value(b);
    lemma_symbol_value(c);
    let g = seq![b64_symbol(a), b64_symbol(b), b64_symbol(c), b64_pad()];
    assert(g[2] != b64_pad() && g[3] == b64_pad());
    assert(seq![(a * 4 + b / 16) as u8, ((b % 16) * 16 + c / 4) as u8] =~= seq![x0, x1]);
}

proof fn lemma_group_three(x0: u8, x1: u8, x2: u8, is_last: bool)
    ensures
        base64_decode_group(
            seq![
                b64_symbol(x0 as int / 4),
                b64_symbol((x0 as int % 4) * 16 + x1 as int / 16),
                b64_symbol((x1 as int % 16) * 4 + x2 as int / 64),
                b64_symbol(x2 as int % 64),
            ],
            is_last,
        ) == Some(seq![x0, x1, x2]),
{
    let a = x0 as int / 4;
    let b = (x0 as int % 4) * 16 + x1 as int / 16;
    let c = (x1 as int % 16) * 4 + x2 as int / 64;
    let d = x2 as int % 64;
    lemma_split_three(x0 as int, x1 as int, x2 as int);
    lemma_symbol_value(a);
    lemma_symbol_value(b);
    lemma_symbol_value(c);
    lemma_symbol_value(d);
    let g = seq![b64_symbol(a), b64_symbol(b), b64_symbol(c), b64_symbol(d)];
    assert(g[2] != b64_pad() && g[3] != b64_pad());
    assert(seq![(a * 4 + b / 16) as u8, ((b % 16) * 16 + c / 4) as u8, ((c % 4) * 64 + d) as u8]
        =~= seq![x0, x1, x2]);
}

proof fn lemma_decode_single_group(s: Seq<u8>, bytes: Seq<u8>)
    requires
        s.len() == 4,
        base64_decode_group(s, true) == Some(bytes),
    ensures
        base64_decode(s) == Some(bytes),
{
    assert(s.take(4) =~= s);
    assert(s.skip(4) =~= Seq::<u8>::empty());
    assert(base64_decode(s.skip(4)) == Some(Seq::<u8>::empty()));
    assert(bytes + Seq::<u8>::empty() =~= bytes);
}

proof fn lemma_decode_leading_group(s: Seq<u8>, group: Seq<u8>, rest: Seq<u8>)
    requires
        s.len() > 4,
        base64_decode_group(s.take(4), false) == Some(group),
        base64_decode(s.skip(4)) == Some(rest),
    ensures
        base64_decode(s) == Some(group + rest),
{
}

/// Law: decoding the base64 text of any bytes gives the bytes back.
pub proof fn lemma_base64_decode_encode(b: Seq<u8>)
    ensures
        base64_decode(base64_encode(b)) == Some(b),
    decreases b.len(),
{
    let s = base64_encode(b);
    if b.len() == 1 {
        let x0 = b[0];
        lemma_group_one(x0);
        assert(s =~= seq![b64_symbol(x0 as int / 4), b64_symbol((x0 as int % 4) * 16), b64_pad(), b64_pad()]);
        lemma_decode_single_group(s, seq![x0]);
        assert(b =~= seq![x0]);
    } else if b.len() == 2 {
        let x0 = b[0];
        let x1 = b[1];
        lemma_group_two(x0, x1);
        assert(s =~= seq![
            b64_symbol(x0 as int / 4),
            b64_symbol((x0 as int % 4) * 16 + x1 as int / 16),
            b64_symbol((x1 as int % 16) * 4),
            b64_pad(),
        ]);
        lemma_decode_single_group(s, seq![x0, x1]);
        assert(b =~= seq![x0, x1]);
    } else if b.len() > 2 {
        let x0 = b[0];
        let x1 = b[1];
        let x2 = b[2];
        let head = seq![
            b64_symbol(x0 as int / 4),
            b64_symbol((x0 as int % 4) * 16 + x1 as int / 16),
            b64_symbol((x1 as int % 16) * 4 + x2 as int / 64),
            b64_symbol(x2 as int % 64),
        ];
        let rest = base64_encode(b.skip(3));
        assert(s == head + rest);
        lemma_base64_decode_encode(b.skip(3));
        assert(b =~= seq![x0, x1, x2] + b.skip(3));
        if b.len() == 3 {
            lemma_group_three(x0, x1, x2, true);
            assert(b.skip(3).len() == 0);
            assert(rest =~= Seq::<u8>::empty());
            assert(s =~= head);
            lemma_decode_single_group(s, seq![x0, x1, x2]);
        } else {
            lemma_group_three(x0, x1, x2, false);
            assert(rest.len() > 0);
            assert(s.take(4) =~= head);
            assert(s.skip(4) =~= rest);
            lemma_decode_leading_group(s, seq![x0, x1, x2], b.skip(3));
        }
    }
}

/// Law: base64 text that decodes is the base64 text of what it decodes
/// to; no two texts decode to the same bytes.
pub proof fn lemma_base64_encode_decode(s: Seq<u8>)
    requires
        base64_decode(s) is Some,
    ensures
        base64_encode(base64_decode(s).unwrap()) == s,
    decreases s.len(),
{
    if s.len() > 0 {
        let g = s.take(4);
        let is_last = s.len() == 4;
        let group = base64_decode_group(g, is_last).unwrap();
        let rest = base64_decode(s.skip(4)).unwrap();
        let b = base64_decode(s).unwrap();
        assert(b == group + rest);
        lemma_value_symbol(g[0]);
        lemma_value_symbol(g[1]);
        let a = b64_value(g[0]).unwrap();
        let c1 = b64_value(g[1]).unwrap();
        if is_last && g[2] == b64_pad() && g[3] == b64_pad() {
            lemma_join_values(a, c1, 0, 0);
            assert(s.skip(4).len() == 0);
            assert(rest =~= Seq::<u8>::empty());
            assert(b =~= group);
            assert(base64_encode(b) =~= s);
        } else {
            lemma_value_symbol(g[2]);
            let c2 = b64_value(g[2]).unwrap();
            if is_last && g[3] == b64_pad() {
                lemma_join_values(a, c1, c2, 0);
                assert(s.skip(4).len() == 0);
                assert(rest =~= Seq::<u8>::empty());
                assert(b =~= group);
                assert(base64_encode(b) =~= s);
            } else {
                lemma_value_symbol(g[3]);
                let c3 = b64_value(g[3]).unwrap();
                lemma_join_values(a, c1, c2, c3);
                lemma_base64_encode_decode(s.skip(4));
                if s.len() == 4 {
                    assert(s.skip(4).len() == 0);
                    assert(rest =~= Seq::<u8>::empty());
                } else {
                    assert(s.skip(4).len() >= 4);
                    assert(rest.len() > 0) by {
                        if rest.len() == 0 {
                            assert(base64_encode(rest).len() == 0);
                        }
                    }
                }
                assert(b.skip(3) =~= rest);
                assert(base64_encode(b) =~= s.take(4) + s.skip(4));
                assert(s.take(4) + s.skip(4) =~= s);
            }
        }
    }
}

/// Every byte of base64 text is ASCII.
pub proof fn lemma_base64_is_ascii(b: Seq<u8>)
    ensures
        forall|i: int| 0 <= i < base64_encode(b).len() ==> #[trigger] base64_encode(b)[i] < 128,
    decreases b.len(),
{
    if b.len() > 0 {
        lemma_split_three(b[0] as int, if b.len() > 1 { b[1] as int } else { 0 }, if b.len() > 2 { b[2] as int } else { 0 });
        lemma_symbol_value((b[0] as int) / 4);
        lemma_symbol_value(((b[0] as int) % 4) * 16);
        if b.len() >= 2 {
            lemma_symbol_value(((b[0] as int) % 4) * 16 + (b[1] as int) / 16);
            lemma_symbol_value(((b[1] as int) % 16) * 4);
        }
        if b.len() >= 3 {
            lemma_symbol_value(((b[1] as int) % 16) * 4 + (b[2] as int) / 64);
            lemma_symbol_value((b[2] as int) % 64);
            lemma_base64_is_ascii(b.skip(3));
            let rest = base64_encode(b.skip(3));
            assert forall|i: int| 0 <= i < base64_encode(b).len() implies #[trigger] base64_encode(
                b,
            )[i] < 128 by {
                if i >= 4 {
                    assert(base64_encode(b)[i] == rest[i - 4]);
                }
            }
        }
    }
}

/// ASCII bytes are valid UTF-8.
pub proof fn lemma_ascii_is_utf8(b: Seq<u8>)
    requires
        forall|i: int| 0 <= i < b.len() ==> #[trigger] b[i] < 128,
    ensures
        valid_utf8(b),
{
    assert(b.subrange(0, 0) =~= Seq::<u8>::empty());
    assert(partial_valid_utf8(b, 0));
    assert forall|i: int| 0 <= 0 <= i < b.len() <= b.len() implies #[trigger] is_leading_byte_width_1(
        b[i],
    ) by {
        assert(b[i] < 128);
    }
    partial_valid_utf8_extend_ascii_block(b, 0, b.len() as int);
    assert(b.subrange(0, b.len() as int) =~= b);
}

/// `std::str::from_utf8`: std documents that it succeeds exactly on valid
/// UTF-8, and that the text it gives has those bytes.
#[verifier::external_body]
fn utf8_to_string(bytes: &[u8]) -> (r: Option<String>)
    ensures
        r is Some <==> valid_utf8(bytes@),
        r matches Some(s) ==> encode_utf8(s@) == bytes@,
{
    match std::str::from_utf8(bytes) {
        Ok(s) => Some(s.to_string()),
        Err(_) => None,
    }
}

/// The text whose UTF-8 bytes are `b`, which are ASCII.
fn ascii_to_string(b: &[u8]) -> (r: String)
    requires
        forall|i: int| 0 <= i < b@.len() ==> #[trigger] b@[i] < 128,
    ensures
        encode_utf8(r@) == b@,
{
    proof {
        lemma_ascii_is_utf8(b@);
    }
    match utf8_to_string(b) {
        Some(s) => s,
        None => {
            proof {
                assert(false);
            }
            String::new()
        },
    }
}

fn symbol(v: u8) -> (r: u8)
    requires
        v < 64,
    ensures
        r == b64_symbol(v as int),
{
    if v < 26 {
        65 + v
    } else if v < 52 {
        97 + v - 26
    } else if v < 62 {
        48 + v - 52
    } else if v == 62 {
        43
    } else {
        47
    }
}

fn value_of(c: u8) -> (r: Option<u8>)
    ensures
        r is Some == b64_value(c) is Some,
        r matches Some(v) ==> v == b64_value(c).unwrap(),
{
    if 65 <= c && c <= 90 {
        Some(c - 65)
    } else if 97 <= c && c <= 122 {
        Some(c - 97 + 26)
    } else if 48 <= c && c <= 57 {
        Some(c - 48 + 52)
    } else if c == 43 {
        Some(62)
    } else if c == 47 {
        Some(63)
    } else {
        None
    }
}

/// The base64 text of `b`, as bytes.
pub fn base64_encode_bytes(b: &[u8]) -> (r: Vec<u8>)
    ensures
        r@ == base64_encode(b@),
{
    let mut out: Vec<u8> = Vec::new();
    let mut i: usize = 0;
    assert(b@.skip(0) =~= b@);
    while i < b.len()
        invariant
            0 <= i <= b@.len(),
            base64_encode(b@) == out@ + base64_encode(b@.skip(i as int)),
        decreases b@.len() - i,
    {
        let ghost rest = b@.skip(i as int);
        let b0 = b[i];
        proof {
            lemma_split_three(b0 as int, 0, 0);
        }
        if b.len() - i == 1 {
            out.push(symbol(b0 / 4));
            out.push(symbol((b0 % 4) * 16));
            out.push(61u8);
            out.push(61u8);
            assert(b@.skip(i + 1) =~= Seq::<u8>::empty());
            i = i + 1;
        } else if b.len() - i == 2 {
            let b1 = b[i + 1];
            proof {
                lemma_split_three(b0 as int, b1 as int, 0);
            }
            out.push(symbol(b0 / 4));
            out.push(symbol((b0 % 4) * 16 + b1 / 16));
            out.push(symbol((b1 % 16) * 4));
            out.push(61u8);
            assert(b@.skip(i + 2) =~= Seq::<u8>::empty());
            i = i + 2;
        } else {
            let b1 = b[i + 1];
            let b2 = b[i + 2];
            proof {
                lemma_split_three(b0 as int, b1 as int, b2 as int);
            }
            out.push(symbol(b0 / 4));
            out.push(symbol((b0 % 4) * 16 + b1 / 16));
            out.push(symbol((b1 % 16) * 4 + b2 / 64));
            out.push(symbol(b2 % 64));
            assert(rest.skip(3) =~= b@.skip(i + 3));
            i = i + 3;
        }
        assert(base64_encode(b@) =~= out@ + base64_encode(b@.skip(i as int)));
    }
    assert(b@.skip(i as int) =~= Seq::<u8>::empty());
    assert(out@ + Seq::<u8>::empty() =~= out@);
    out
}

fn decode_group(c0: u8, c1: u8, c2: u8, c3: u8, is_last: bool) -> (r: Option<Vec<u8>>)
    ensures
        r is Some == base64_decode_group(seq![c0, c1, c2, c3], is_last) is Some,
        r matches Some(v) ==> v@ == base64_decode_group(seq![c0, c1, c2, c3], is_last).unwrap(),
{
    let ghost g = seq![c0, c1, c2, c3];
    assert(g[0] == c0 && g[1] == c1 && g[2] == c2 && g[3] == c3);
    let v0 = value_of(c0);
    let v1 = value_of(c1);
    if v0.is_none() || v1.is_none() {
        return None;
    }
    let a = v0.unwrap();
    let b = v1.unwrap();
    proof {
        lemma_value_symbol(c0);
        lemma_value_symbol(c1);
        lemma_join_values(a as int, b as int, 0, 0);
    }
    let mut out: Vec<u8> = Vec::new();
    if is_last && c2 == 61 && c3 == 61 {
        if b % 16 != 0 {
            return None;
        }
        out.push(a * 4 + b / 16);
        assert(out@ =~= base64_decode_group(g, is_last).unwrap());
        return Some(out);
    }
    let v2 = value_of(c2);
    if v2.is_none() {
        return None;
    }
    let c = v2.unwrap();
    proof {
        lemma_value_symbol(c2);
        lemma_join_values(a as int, b as int, c as int, 0);
    }
    if is_last && c3 == 61 {
        if c % 4 != 0 {
            return None;
        }
        out.push(a * 4 + b / 16);
        out.push((b % 16) * 16 + c / 4);
        assert(out@ =~= base64_decode_group(g, is_last).unwrap());
        return Some(out);
    }
    let v3 = value_of(c3);
    if v3.is_none() {
        return None;
    }
    let d = v3.unwrap();
    proof {
        lemma_value_symbol(c3);
        lemma_join_values(a as int, b as int, c as int, d as int);
    }
    out.push(a * 4 + b / 16);
    out.push((b % 16) * 16 + c / 4);
    out.push((c % 4) * 64 + d);
    assert(out@ =~= base64_decode_group(g, is_last).unwrap());
    Some(out)
}

/// The bytes whose base64 text is `s`, or `None` when `s` is not base64.
pub fn base64_decode_bytes(s: &[u8]) -> (r: Option<Vec<u8>>)
    ensures
        r is Some == base64_decode(s@) is Some,
        r matches Some(v) ==> v@ == base64_decode(s@).unwrap(),
{
    if s.len() % 4 != 0 {
        proof {
            lemma_decode_length(s@);
        }
        return None;
    }
    let mut out: Vec<u8> = Vec::new();
    let mut i: usize = 0;
    assert(s@.skip(0) =~= s@);
    while i < s.len()
        invariant
            0 <= i <= s@.len(),
            s@.len() % 4 == 0,
            i % 4 == 0,
            base64_decode(s@) == match base64_decode(s@.skip(i as int)) {
                Some(r) => Some(out@ + r),
                None => None::<Seq<u8>>,
            },
        decreases s@.len() - i,
    {
        let ghost rest = s@.skip(i as int);
        let ghost old_out = out@;
        let is_last = i + 4 == s.len();
        assert(rest.take(4) =~= seq![s@[i as int], s@[i + 1], s@[i + 2], s@[i + 3]]);
        assert(rest.skip(4) =~= s@.skip(i + 4));
        let group = decode_group(s[i], s[i + 1], s[i + 2], s[i + 3], is_last);
        let group = match group {
            None => {
                return None;
            },
            Some(g) => g,
        };
        out.extend_from_slice(group.as_slice());
        i = i + 4;
        proof {
            match base64_decode(s@.skip(i as int)) {
                Some(r) => {
                    assert(old_out + (group@ + r) =~= out@ + r);
                },
                None => {},
            }
        }
    }
    assert(s@.skip(i as int) =~= Seq::<u8>::empty());
    assert(out@ + Seq::<u8>::empty() =~= out@);
    Some(out)
}

proof fn lemma_decode_length(s: Seq<u8>)
    requires
        s.len() % 4 != 0,
    ensures
        base64_decode(s) is None,
    decreases s.len(),
{
    if s.len() >= 4 {
        lemma_decode_length(s.skip(4));
    }
}

/// How a field's bytes are written as text.
#[derive(Clone, Copy, PartialEq, Eq, Structural)]
pub enum StrSerializationType {
    Utf8,
    Base64,
}

/// The name of an encoding, as the API spells it.
pub open spec fn encoding_from_name(name: Seq<char>) -> Option<StrSerializationType> {
    if name == "utf8"@ {
        Some(StrSerializationType::Utf8)
    } else if name == "base64"@ {
        Some(StrSerializationType::Base64)
    } else {
        None
    }
}

/// The UTF-8 bytes that `serialize_with_priority` writes for `b`, and the
/// encoding it uses.
pub open spec fn serialized_with_priority(t: StrSerializationType, b: Seq<u8>) -> (
    Seq<u8>,
    StrSerializationType,
) {
    if t == StrSerializationType::Utf8 && valid_utf8(b) {
        (b, StrSerializationType::Utf8)
    } else {
        (base64_encode(b), StrSerializationType::Base64)
    }
}

/// The bytes that `deserialize` reads from text with UTF-8 bytes `s`.
pub open spec fn deserialized(t: StrSerializationType, s: Seq<u8>) -> Option<Seq<u8>> {
    match t {
        StrSerializationType::Utf8 => Some(s),
        StrSerializationType::Base64 => base64_decode(s),
    }
}

impl StrSerializationType {
    /// The encoding named `name`: `"utf8"` or `"base64"`.
    pub fn from_str(name: &str) -> (r: Result<StrSerializationType, ()>)
        ensures
            r is Ok == encoding_from_name(name@) is Some,
            r matches Ok(t) ==> t == encoding_from_name(name@).unwrap(),
    {
        let name = name.to_owned();
        let utf8 = "utf8".to_owned();
        let base64 = "base64".to_owned();
        if name == utf8 {
            Ok(StrSerializationType::Utf8)
        } else if name == base64 {
            Ok(StrSerializationType::Base64)
        } else {
            Err(())
        }
    }

    /// The encoding named by an optional field; a missing one is UTF-8.
    pub fn from_opt_str(name: Option<String>) -> (r: Result<StrSerializationType, ()>)
        ensures
            match name {
                None => r == Ok::<StrSerializationType, ()>(StrSerializationType::Utf8),
                Some(n) => (r is Ok == encoding_from_name(n@) is Some) && (r matches Ok(t) ==> t
                    == encoding_from_name(n@).unwrap()),
            },
    {
        match name {
            None => Ok(StrSerializationType::Utf8),
            Some(n) => Self::from_str(n.as_str()),
        }
    }

    /// The name to put in an optional encoding field: none for UTF-8, the
    /// default.
    pub fn to_optional_string(&self) -> (r: Option<String>)
        ensures
            match self {
                StrSerializationType::Utf8 => r is None,
                StrSerializationType::Base64 => r matches Some(s) && s@ == "base64"@,
            },
    {
        match self {
            StrSerializationType::Utf8 => None,
            StrSerializationType::Base64 => Some("base64".to_owned()),
        }
    }

    /// Writes `b` as text: as UTF-8 when this encoding is UTF-8 and `b` is
    /// valid UTF-8, else as base64. Returns the text and the encoding used.
    pub fn serialize_with_priority(&self, b: &[u8]) -> (r: (String, StrSerializationType))
        ensures
            (encode_utf8(r.0@), r.1) == serialized_with_priority(*self, b@),
    {
        if *self == StrSerializationType::Utf8 {
            match utf8_to_string(b) {
                Some(s) => {
                    return (s, StrSerializationType::Utf8);
                },
                None => {},
            }
        }
        let encoded = base64_encode_bytes(b);
        proof {
            lemma_base64_is_ascii(b@);
        }
        (ascii_to_string(encoded.as_slice()), StrSerializationType::Base64)
    }

    /// Reads the bytes that the text `s` stands for in this encoding; fails
    /// on text that is not base64 when the encoding is base64.
    pub fn deserialize(&self, s: &str) -> (r: Result<Vec<u8>, ()>)
        ensures
            r is Ok == deserialized(*self, encode_utf8(s@)) is Some,
            r matches Ok(v) ==> v@ == deserialized(*self, encode_utf8(s@)).unwrap(),
    {
        let bytes = s.as_bytes();
        match self {
            StrSerializationType::Utf8 => Ok(vstd::slice::slice_to_vec(bytes)),
            StrSerializationType::Base64 => match base64_decode_bytes(bytes) {
                Some(v) => Ok(v),
                None => Err(()),
            },
        }
    }
}

/// Law: whatever encoding `serialize_with_priority` picks, reading the text
/// back in that encoding gives the bytes.
pub proof fn lemma_serialize_deserialize(t: StrSerializationType, b: Seq<u8>)
    ensures
        deserialized(serialized_with_priority(t, b).1, serialized_with_priority(t, b).0) == Some(b),
{
    lemma_base64_decode_encode(b);
}

} // verus!
