//! Identifiers made of the clock and a random number.

use crate::text;
use vstd::prelude::*;
use vstd::string::*;

verus! {

/// A UUID-like identifier: hexadecimal groups of the time in nanoseconds (its low 64 bits,
/// then the next 16), of the low 12 bits and the next 14 bits of the random number under the
/// version and variant marks, and of the whole random number.
pub open spec fn uuid_text(nanos: nat, r: nat) -> Seq<char> {
    text::hex_padded(nanos % 0x1_0000_0000_0000_0000, 16) + "-"@ + text::hex_padded(
        (nanos / 0x1_0000_0000_0000_0000) % 0x1_0000,
        4,
    ) + "-"@ + text::hex_padded(0x4000 + r % 0x1000, 4) + "-"@ + text::hex_padded(
        0x8000 + (r / 0x1000) % 0x4000,
        4,
    ) + "-"@ + text::hex_padded(r, 12)
}

/// The identifier for a time since the epoch in nanoseconds and a random number.
pub fn uuid_str(nanos: u128, r: u32) -> (id: String)
    ensures
        id@ == uuid_text(nanos as nat, r as nat),
{
    let low = (nanos % 0x1_0000_0000_0000_0000u128) as u64;
    let high = ((nanos / 0x1_0000_0000_0000_0000u128) % 0x1_0000u128) as u64;
    let r = r as u64;
    let mut out = text::hex_text(low, 16);
    out.append("-");
    out.append(text::hex_text(high, 4).as_str());
    out.append("-");
    out.append(text::hex_text(0x4000 + r % 0x1000, 4).as_str());
    out.append("-");
    out.append(text::hex_text(0x8000 + (r / 0x1000) % 0x4000, 4).as_str());
    out.append("-");
    out.append(text::hex_text(r, 12).as_str());
    out
}

// ---- laws ---------------------------------------------------------------------------------------

/// An identifier is made of five groups of characters with dashes between them.
pub proof fn ids_have_their_shape(nanos: nat, r: nat)
    requires
        r < 0x1_0000_0000,
    ensures
        uuid_text(nanos, r).len() == 44,
        uuid_text(nanos, r)[16] == '-' && uuid_text(nanos, r)[21] == '-' && uuid_text(nanos, r)[26]
            == '-' && uuid_text(nanos, r)[31] == '-',
{
    reveal_strlit("-");
    text::hex_has_its_width(nanos % 0x1_0000_0000_0000_0000, 16);
    text::hex_has_its_width((nanos / 0x1_0000_0000_0000_0000) % 0x1_0000, 4);
    text::hex_has_its_width(0x4000 + r % 0x1000, 4);
    text::hex_has_its_width(0x8000 + (r / 0x1000) % 0x4000, 4);
    text::hex_has_its_width(r, 12);
}

/// Identifiers of different times, or of different random numbers, are different.
pub proof fn ids_tell_apart(n: nat, r: nat, m: nat, q: nat)
    requires
        n < 0x1_0000_0000_0000_0000_0000,
        m < 0x1_0000_0000_0000_0000_0000,
        r < 0x1_0000_0000,
        q < 0x1_0000_0000,
        uuid_text(n, r) == uuid_text(m, q),
    ensures
        n == m,
        r == q,
{
    reveal_strlit("-");
    let a = text::hex_padded(n % 0x1_0000_0000_0000_0000, 16);
    let b = text::hex_padded(m % 0x1_0000_0000_0000_0000, 16);
    let c = text::hex_padded((n / 0x1_0000_0000_0000_0000) % 0x1_0000, 4);
    let d = text::hex_padded((m / 0x1_0000_0000_0000_0000) % 0x1_0000, 4);
    let e = text::hex_padded(r, 12);
    let f = text::hex_padded(q, 12);
    ids_have_their_shape(n, r);
    ids_have_their_shape(m, q);
    text::hex_has_its_width(n % 0x1_0000_0000_0000_0000, 16);
    text::hex_has_its_width(m % 0x1_0000_0000_0000_0000, 16);
    text::hex_has_its_width((n / 0x1_0000_0000_0000_0000) % 0x1_0000, 4);
    text::hex_has_its_width((m / 0x1_0000_0000_0000_0000) % 0x1_0000, 4);
    text::hex_has_its_width(0x4000 + r % 0x1000, 4);
    text::hex_has_its_width(0x8000 + (r / 0x1000) % 0x4000, 4);
    text::hex_has_its_width(0x4000 + q % 0x1000, 4);
    text::hex_has_its_width(0x8000 + (q / 0x1000) % 0x4000, 4);
    text::hex_has_its_width(r, 12);
    text::hex_has_its_width(q, 12);
    assert(uuid_text(n, r).subrange(0, 16) =~= a);
    assert(uuid_text(m, q).subrange(0, 16) =~= b);
    assert(uuid_text(n, r).subrange(17, 21) =~= c);
    assert(uuid_text(m, q).subrange(17, 21) =~= d);
    assert(uuid_text(n, r).subrange(32, 44) =~= e);
    assert(uuid_text(m, q).subrange(32, 44) =~= f);
    text::hex_reads_back(n % 0x1_0000_0000_0000_0000, 16);
    text::hex_reads_back(m % 0x1_0000_0000_0000_0000, 16);
    text::hex_reads_back((n / 0x1_0000_0000_0000_0000) % 0x1_0000, 4);
    text::hex_reads_back((m / 0x1_0000_0000_0000_0000) % 0x1_0000, 4);
    text::hex_reads_back(r, 12);
    text::hex_reads_back(q, 12);
    assert(n == (n / 0x1_0000_0000_0000_0000) * 0x1_0000_0000_0000_0000 + n
        % 0x1_0000_0000_0000_0000);
    assert(m == (m / 0x1_0000_0000_0000_0000) * 0x1_0000_0000_0000_0000 + m
        % 0x1_0000_0000_0000_0000);
}

/// The groups of an identifier read as hexadecimal numbers: the time in nanoseconds, low bits
/// first, then the random number's bits, marked by a 4 and by the bits 1 and 0 at the top of
/// their groups, and the random number itself.
pub proof fn ids_hold_their_numbers(nanos: nat, r: nat)
    requires
        r < 0x1_0000_0000,
    ensures
        ({
            let id = uuid_text(nanos, r);
            let third = text::hex_value(id.subrange(22, 26));
            let fourth = text::hex_value(id.subrange(27, 31));
            &&& text::hex_value(id.subrange(0, 16)) == nanos % 0x1_0000_0000_0000_0000
            &&& text::hex_value(id.subrange(17, 21)) == (nanos / 0x1_0000_0000_0000_0000)
                % 0x1_0000
            &&& third / 0x1000 == 4 && third % 0x1000 == r % 0x1000
            &&& fourth / 0x4000 == 2 && fourth % 0x4000 == (r / 0x1000) % 0x4000
            &&& text::hex_value(id.subrange(32, 44)) == r
        }),
{
    reveal_strlit("-");
    let id = uuid_text(nanos, r);
    let (a, b, c, d) = (
        nanos % 0x1_0000_0000_0000_0000,
        (nanos / 0x1_0000_0000_0000_0000) % 0x1_0000,
        0x4000 + r % 0x1000,
        0x8000 + (r / 0x1000) % 0x4000,
    );
    text::hex_has_its_width(a, 16);
    text::hex_has_its_width(b, 4);
    text::hex_has_its_width(c, 4);
    text::hex_has_its_width(d, 4);
    text::hex_has_its_width(r, 12);
    assert(id.subrange(0, 16) =~= text::hex_padded(a, 16));
    assert(id.subrange(17, 21) =~= text::hex_padded(b, 4));
    assert(id.subrange(22, 26) =~= text::hex_padded(c, 4));
    assert(id.subrange(27, 31) =~= text::hex_padded(d, 4));
    assert(id.subrange(32, 44) =~= text::hex_padded(r, 12));
    text::hex_reads_back(a, 16);
    text::hex_reads_back(b, 4);
    text::hex_reads_back(c, 4);
    text::hex_reads_back(d, 4);
    text::hex_reads_back(r, 12);
}

} // verus!
