use vstd::prelude::*;
use vstd::string::StringSliceAdditionalSpecFns;

use crate::recompute::{HolderAmount, IssuerClaim};

verus! {

/// The lower-case hexadecimal digit of a value below sixteen, as a byte.
pub open spec fn hex_digit_byte(d: nat) -> u8
    recommends
        d < 16,
{
    if d < 10 {
        (48 + d) as u8
    } else {
        (87 + d) as u8
    }
}

/// How one byte of a string's UTF-8 encoding is written inside a JSON
/// string: quote, backslash and control bytes are escaped (the short forms
/// where JSON has one, `\u00XX` with lower-case digits otherwise), every
/// other byte is written as it is.
pub open spec fn escape_byte(b: u8) -> Seq<u8> {
    if b == 0x22 {
        seq![0x5cu8, 0x22u8]
    } else if b == 0x5c {
        seq![0x5cu8, 0x5cu8]
    } else if b == 0x08 {
        seq![0x5cu8, 0x62u8]
    } else if b == 0x0c {
        seq![0x5cu8, 0x66u8]
    } else if b == 0x0a {
        seq![0x5cu8, 0x6eu8]
    } else if b == 0x0d {
        seq![0x5cu8, 0x72u8]
    } else if b == 0x09 {
        seq![0x5cu8, 0x74u8]
    } else if b < 0x20 {
        seq![
            0x5cu8,
            0x75u8,
            0x30u8,
            0x30u8,
            hex_digit_byte((b / 16) as nat),
            hex_digit_byte((b % 16) as nat),
        ]
    } else {
        seq![b]
    }
}

/// The escaped form of a byte sequence.
pub open spec fn escape_bytes(bytes: Seq<u8>) -> Seq<u8>
    decreases bytes.len(),
{
    if bytes.len() == 0 {
        Seq::empty()
    } else {
        escape_bytes(bytes.drop_last()) + escape_byte(bytes.last())
    }
}

/// A string written as a JSON string literal.
pub open spec fn json_string(s: Seq<char>) -> Seq<u8> {
    seq![0x22u8] + escape_bytes(vstd::utf8::encode_utf8(s)) + seq![0x22u8]
}

/// The shortest decimal rendering of a natural number, as ASCII bytes.
pub open spec fn decimal_ascii(n: nat) -> Seq<u8>
    decreases n,
{
    if n < 10 {
        seq![(48 + n) as u8]
    } else {
        decimal_ascii(n / 10).push((48 + n % 10) as u8)
    }
}

/// One holder entry as a compact JSON object, fields in declaration order.
pub open spec fn holder_json(h: HolderAmount) -> Seq<u8> {
    "{\"category\":".spec_bytes() + json_string(h.category@) + ",\"amount\":".spec_bytes()
        + decimal_ascii(h.amount as nat) + "}".spec_bytes()
}

/// The holder entries, separated by commas.
pub open spec fn holders_json(hs: Seq<HolderAmount>) -> Seq<u8>
    decreases hs.len(),
{
    if hs.len() == 0 {
        Seq::empty()
    } else if hs.len() == 1 {
        holder_json(hs[0])
    } else {
        holders_json(hs.drop_last()) + seq![0x2cu8] + holder_json(hs.last())
    }
}

/// The canonical serialisation of an issuer claim that its digest is taken
/// over: compact JSON with the fields in declaration order.
pub open spec fn claim_json(c: IssuerClaim) -> Seq<u8> {
    "{\"asset_id\":".spec_bytes() + json_string(c.asset_id@) + ",\"total_supply\":".spec_bytes()
        + decimal_ascii(c.total_supply as nat) + ",\"holders\":[".spec_bytes() + holders_json(
        c.holders@,
    ) + "]}".spec_bytes()
}

fn push_bytes(out: &mut Vec<u8>, bytes: &[u8])
    ensures
        final(out)@ == old(out)@ + bytes@,
{
    let ghost start = out@;
    for i in 0..bytes.len()
        invariant
            out@ == start + bytes@.take(i as int),
    {
        out.push(bytes[i]);
        assert(bytes@.take(i + 1) =~= bytes@.take(i as int).push(bytes@[i as int]));
    }
    assert(bytes@.take(bytes.len() as int) =~= bytes@);
}

fn push_literal(out: &mut Vec<u8>, s: &str)
    ensures
        final(out)@ == old(out)@ + s.spec_bytes(),
{
    push_bytes(out, s.as_bytes());
}

fn hex_digit(d: u8) -> (b: u8)
    requires
        d < 16,
    ensures
        b == hex_digit_byte(d as nat),
{
    if d < 10 {
        48 + d
    } else {
        87 + d
    }
}

fn push_escaped_byte(out: &mut Vec<u8>, b: u8)
    ensures
        final(out)@ == old(out)@ + escape_byte(b),
{
    let ghost start = out@;
    if b == 0x22 || b == 0x5c || b == 0x08 || b == 0x0c || b == 0x0a || b == 0x0d || b == 0x09 {
        let e: u8 = if b == 0x22 {
            0x22
        } else if b == 0x5c {
            0x5c
        } else if b == 0x08 {
            0x62
        } else if b == 0x0c {
            0x66
        } else if b == 0x0a {
            0x6e
        } else if b == 0x0d {
            0x72
        } else {
            0x74
        };
        out.push(0x5c);
        out.push(e);
    } else if b < 0x20 {
        out.push(0x5c);
        out.push(0x75);
        out.push(0x30);
        out.push(0x30);
        out.push(hex_digit(b / 16));
        out.push(hex_digit(b % 16));
    } else {
        out.push(b);
    }
    assert(out@ =~= start + escape_byte(b));
}

fn push_json_string(out: &mut Vec<u8>, s: &String)
    ensures
        final(out)@ == old(out)@ + json_string(s@),
{
    let ghost start = out@;
    out.push(0x22);
    let bytes = s.as_str().as_bytes();
    assert(bytes@ == vstd::utf8::encode_utf8(s@));
    for i in 0..bytes.len()
        invariant
            out@ == start + seq![0x22u8] + escape_bytes(bytes@.take(i as int)),
    {
        assert(bytes@.take(i + 1).drop_last() =~= bytes@.take(i as int));
        push_escaped_byte(out, bytes[i]);
        assert(out@ =~= start + seq![0x22u8] + escape_bytes(bytes@.take(i + 1)));
    }
    assert(bytes@.take(bytes.len() as int) =~= bytes@);
    out.push(0x22);
    assert(out@ =~= start + json_string(s@));
}

fn push_decimal_ascii(out: &mut Vec<u8>, n: u64)
    ensures
        final(out)@ == old(out)@ + decimal_ascii(n as nat),
    decreases n,
{
    let ghost start = out@;
    if n >= 10 {
        push_decimal_ascii(out, n / 10);
    }
    let d: u8 = (n % 10) as u8;
    out.push(48 + d);
    assert(out@ =~= start + decimal_ascii(n as nat));
}

fn push_holder_json(out: &mut Vec<u8>, h: &HolderAmount)
    ensures
        final(out)@ == old(out)@ + holder_json(*h),
{
    let ghost start = out@;
    push_literal(out, "{\"category\":");
    push_json_string(out, &h.category);
    push_literal(out, ",\"amount\":");
    push_decimal_ascii(out, h.amount);
    push_literal(out, "}");
    assert(out@ =~= start + holder_json(*h));
}

/// The canonical serialisation of an issuer claim.
pub fn claim_json_bytes(claim: &IssuerClaim) -> (out: Vec<u8>)
    ensures
        out@ == claim_json(*claim),
{
    let mut out: Vec<u8> = Vec::new();
    push_literal(&mut out, "{\"asset_id\":");
    push_json_string(&mut out, &claim.asset_id);
    push_literal(&mut out, ",\"total_supply\":");
    push_decimal_ascii(&mut out, claim.total_supply);
    push_literal(&mut out, ",\"holders\":[");
    let ghost before = out@;
    let hs = &claim.holders;
    for i in 0..hs.len()
        invariant
            out@ == before + holders_json(hs@.take(i as int)),
    {
        assert(hs@.take(i + 1).drop_last() =~= hs@.take(i as int));
        if i > 0 {
            out.push(0x2c);
        }
        push_holder_json(&mut out, &hs[i]);
        assert(out@ =~= before + holders_json(hs@.take(i + 1)));
    }
    assert(hs@.take(hs.len() as int) =~= hs@);
    push_literal(&mut out, "]}");
    assert(out@ =~= claim_json(*claim));
    out
}

/// Appending one holder to a non-empty list appends a comma and that
/// holder's object: the entries are separated by single commas.
pub proof fn lemma_holders_json_push(hs: Seq<HolderAmount>, h: HolderAmount)
    requires
        hs.len() >= 1,
    ensures
        holders_json(hs.push(h)) == holders_json(hs) + seq![0x2cu8] + holder_json(h),
{
    assert(hs.push(h).drop_last() =~= hs);
}

/// The holder entries of a concatenation are those of each part, joined by
/// one comma; with a single holder there is no comma, with none no bytes.
pub proof fn lemma_holders_json_concat(a: Seq<HolderAmount>, b: Seq<HolderAmount>)
    ensures
        holders_json(Seq::<HolderAmount>::empty()) == Seq::<u8>::empty(),
        b.len() == 1 ==> holders_json(b) == holder_json(b[0]),
        a.len() >= 1 && b.len() >= 1 ==> holders_json(a + b) == holders_json(a) + seq![0x2cu8]
            + holders_json(b),
    decreases b.len(),
{
    if a.len() >= 1 && b.len() >= 1 {
        if b.len() == 1 {
            assert(a + b =~= a.push(b[0]));
            lemma_holders_json_push(a, b[0]);
        } else {
            let b1 = b.drop_last();
            lemma_holders_json_concat(a, b1);
            assert(a + b =~= (a + b1).push(b.last()));
            assert(b =~= b1.push(b.last()));
            lemma_holders_json_push(a + b1, b.last());
            lemma_holders_json_push(b1, b.last());
        }
    }
}

} // verus!
