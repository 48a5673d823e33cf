//! Rendering of bytes and numbers as text: upper-case hex pairs, decimal
//! numerals, and debug-style byte lists. Used by the diagnostic renderings
//! of packets, commands and tag records.

use vstd::prelude::*;
use vstd::string::StringExecFns;

verus! {

/// The character for one hex digit (also the decimal digits, for `d < 10`).
pub open spec fn hex_char(d: u8) -> char {
    if d == 0 {
        '0'
    } else if d == 1 {
        '1'
    } else if d == 2 {
        '2'
    } else if d == 3 {
        '3'
    } else if d == 4 {
        '4'
    } else if d == 5 {
        '5'
    } else if d == 6 {
        '6'
    } else if d == 7 {
        '7'
    } else if d == 8 {
        '8'
    } else if d == 9 {
        '9'
    } else if d == 10 {
        'A'
    } else if d == 11 {
        'B'
    } else if d == 12 {
        'C'
    } else if d == 13 {
        'D'
    } else if d == 14 {
        'E'
    } else {
        'F'
    }
}

/// One byte as two upper-case hex characters.
pub open spec fn hex_byte_rep(b: u8) -> Seq<char> {
    seq![hex_char(b / 16), hex_char(b % 16)]
}

/// A byte sequence as a run of upper-case hex pairs, no separators.
pub open spec fn hex_upper_rep(s: Seq<u8>) -> Seq<char>
    decreases s.len(),
{
    if s.len() == 0 {
        Seq::empty()
    } else {
        hex_upper_rep(s.drop_last()) + hex_byte_rep(s.last())
    }
}

/// A byte sequence as upper-case hex pairs, each followed by one space.
pub open spec fn hex_spaced_rep(s: Seq<u8>) -> Seq<char>
    decreases s.len(),
{
    if s.len() == 0 {
        Seq::empty()
    } else {
        hex_spaced_rep(s.drop_last()) + hex_byte_rep(s.last()) + seq![' ']
    }
}

/// Two hex characters agree only for the same digit value.
proof fn lemma_hex_char_injective(d1: u8, d2: u8)
    requires
        d1 < 16,
        d2 < 16,
        hex_char(d1) == hex_char(d2),
    ensures
        d1 == d2,
{
}

/// The hex rendering writes two characters for each byte.
pub proof fn lemma_hex_upper_len(s: Seq<u8>)
    ensures
        hex_upper_rep(s).len() == 2 * s.len(),
    decreases s.len(),
{
    if s.len() > 0 {
        lemma_hex_upper_len(s.drop_last());
    }
}

/// The hex rendering is injective: different byte sequences render as
/// different text.
pub proof fn lemma_hex_upper_injective(a: Seq<u8>, b: Seq<u8>)
    requires
        hex_upper_rep(a) == hex_upper_rep(b),
    ensures
        a == b,
    decreases a.len(),
{
    lemma_hex_upper_len(a);
    lemma_hex_upper_len(b);
    if a.len() == 0 {
        assert(a =~= b);
    } else {
        let ha = hex_upper_rep(a.drop_last());
        let hb = hex_upper_rep(b.drop_last());
        lemma_hex_upper_len(a.drop_last());
        lemma_hex_upper_len(b.drop_last());
        assert(ha + hex_byte_rep(a.last()) == hb + hex_byte_rep(b.last()));
        let n = ha.len() as int;
        assert((ha + hex_byte_rep(a.last()))[n] == hex_char(a.last() / 16));
        assert((hb + hex_byte_rep(b.last()))[n] == hex_char(b.last() / 16));
        assert((ha + hex_byte_rep(a.last()))[n + 1] == hex_char(a.last() % 16));
        assert((hb + hex_byte_rep(b.last()))[n + 1] == hex_char(b.last() % 16));
        lemma_hex_char_injective(a.last() / 16, b.last() / 16);
        lemma_hex_char_injective(a.last() % 16, b.last() % 16);
        assert(a.last() == b.last());
        assert(ha =~= hb) by {
            assert forall|i: int| 0 <= i < n implies ha[i] == hb[i] by {
                assert(ha[i] == (ha + hex_byte_rep(a.last()))[i]);
                assert(hb[i] == (hb + hex_byte_rep(b.last()))[i]);
            }
        }
        lemma_hex_upper_injective(a.drop_last(), b.drop_last());
        assert(a =~= b) by {
            assert forall|i: int| 0 <= i < a.len() implies a[i] == b[i] by {
                if i < a.len() - 1 {
                    assert(a[i] == a.drop_last()[i]);
                    assert(b[i] == b.drop_last()[i]);
                }
            }
        }
    }
}

/// A natural number written in decimal, most significant digit first.
pub open spec fn dec_rep(n: nat) -> Seq<char>
    decreases n,
{
    if n < 10 {
        seq![hex_char(n as u8)]
    } else {
        dec_rep(n / 10) + seq![hex_char((n % 10) as u8)]
    }
}

/// A centi-scaled value written with two decimal places: `2650` as `26.50`.
pub open spec fn centi_rep(p: u16) -> Seq<char> {
    dec_rep((p / 100) as nat) + seq![
        '.',
        hex_char(((p / 10) % 10) as u8),
        hex_char((p % 10) as u8),
    ]
}

/// A byte sequence rendered like a debug-printed list: `[1, 2, 3]`.
pub open spec fn byte_list_rep(s: Seq<u8>) -> Seq<char> {
    seq!['['] + byte_list_inner(s) + seq![']']
}

/// The comma-separated decimal items inside a rendered byte list.
pub open spec fn byte_list_inner(s: Seq<u8>) -> Seq<char>
    decreases s.len(),
{
    if s.len() == 0 {
        Seq::empty()
    } else if s.len() == 1 {
        dec_rep(s[0] as nat)
    } else {
        byte_list_inner(s.drop_last()) + seq![',', ' '] + dec_rep(s.last() as nat)
    }
}

/// The one-character string for a hex (or decimal) digit.
pub fn hex_char_str(d: u8) -> (r: &'static str)
    requires
        d < 16,
    ensures
        r@ == seq![hex_char(d)],
{
    proof {
        reveal_strlit("0");
        reveal_strlit("1");
        reveal_strlit("2");
        reveal_strlit("3");
        reveal_strlit("4");
        reveal_strlit("5");
        reveal_strlit("6");
        reveal_strlit("7");
        reveal_strlit("8");
        reveal_strlit("9");
        reveal_strlit("A");
        reveal_strlit("B");
        reveal_strlit("C");
        reveal_strlit("D");
        reveal_strlit("E");
        reveal_strlit("F");
    }
    let r: &'static str = if d == 0 {
        "0"
    } else if d == 1 {
        "1"
    } else if d == 2 {
        "2"
    } else if d == 3 {
        "3"
    } else if d == 4 {
        "4"
    } else if d == 5 {
        "5"
    } else if d == 6 {
        "6"
    } else if d == 7 {
        "7"
    } else if d == 8 {
        "8"
    } else if d == 9 {
        "9"
    } else if d == 10 {
        "A"
    } else if d == 11 {
        "B"
    } else if d == 12 {
        "C"
    } else if d == 13 {
        "D"
    } else if d == 14 {
        "E"
    } else {
        "F"
    };
    proof {
        assert(r@ =~= seq![hex_char(d)]);
    }
    r
}

/// Appends one byte as two upper-case hex characters.
pub fn push_hex_byte(out: &mut String, b: u8)
    ensures
        final(out)@ == old(out)@ + hex_byte_rep(b),
{
    out.append(hex_char_str(b / 16));
    out.append(hex_char_str(b % 16));
    proof {
        assert(final(out)@ =~= old(out)@ + hex_byte_rep(b));
    }
}

/// Appends a natural number written in decimal.
pub fn push_dec(out: &mut String, n: u64)
    ensures
        final(out)@ == old(out)@ + dec_rep(n as nat),
    decreases n,
{
    if n < 10 {
        out.append(hex_char_str(n as u8));
    } else {
        push_dec(out, n / 10);
        out.append(hex_char_str((n % 10) as u8));
        proof {
            assert(final(out)@ =~= old(out)@ + dec_rep(n as nat));
        }
    }
}

/// A natural number written in decimal, as an owned string.
pub fn dec_string(n: u64) -> (r: String)
    ensures
        r@ == dec_rep(n as nat),
{
    let mut s = String::new();
    push_dec(&mut s, n);
    proof {
        assert(s@ =~= dec_rep(n as nat));
    }
    s
}

/// Appends a centi-scaled value written with two decimal places.
pub fn push_centi(out: &mut String, p: u16)
    ensures
        final(out)@ == old(out)@ + centi_rep(p),
{
    proof {
        reveal_strlit(".");
    }
    push_dec(out, (p / 100) as u64);
    out.append(".");
    out.append(hex_char_str(((p / 10) % 10) as u8));
    out.append(hex_char_str((p % 10) as u8));
    proof {
        assert((".")@ =~= seq!['.']);
        assert(final(out)@ =~= old(out)@ + centi_rep(p));
    }
}

/// Appends a byte sequence as a run of upper-case hex pairs.
pub fn push_hex_upper(out: &mut String, bytes: &[u8])
    ensures
        final(out)@ == old(out)@ + hex_upper_rep(bytes@),
{
    let n = bytes.len();
    let mut i: usize = 0;
    while i < n
        invariant
            n == bytes@.len(),
            i <= n,
            out@ == old(out)@ + hex_upper_rep(bytes@.take(i as int)),
        decreases n - i,
    {
        proof {
            assert(bytes@.take(i + 1).drop_last() =~= bytes@.take(i as int));
            assert(bytes@.take(i + 1).last() == bytes@[i as int]);
        }
        let b = *vstd::slice::slice_index_get(bytes, i);
        push_hex_byte(out, b);
        proof {
            assert(out@ =~= old(out)@ + hex_upper_rep(bytes@.take(i + 1)));
        }
        i = i + 1;
    }
    proof {
        assert(bytes@.take(n as int) =~= bytes@);
    }
}

/// Appends a byte sequence as spaced upper-case hex pairs.
pub fn push_hex_spaced(out: &mut String, bytes: &[u8])
    ensures
        final(out)@ == old(out)@ + hex_spaced_rep(bytes@),
{
    proof {
        reveal_strlit(" ");
    }
    let n = bytes.len();
    let mut i: usize = 0;
    while i < n
        invariant
            n == bytes@.len(),
            i <= n,
            out@ == old(out)@ + hex_spaced_rep(bytes@.take(i as int)),
        decreases n - i,
    {
        proof {
            reveal_strlit(" ");
            assert(bytes@.take(i + 1).drop_last() =~= bytes@.take(i as int));
            assert(bytes@.take(i + 1).last() == bytes@[i as int]);
        }
        let b = *vstd::slice::slice_index_get(bytes, i);
        push_hex_byte(out, b);
        out.append(" ");
        proof {
            assert((" ")@ =~= seq![' ']);
            assert(out@ =~= old(out)@ + hex_spaced_rep(bytes@.take(i + 1)));
        }
        i = i + 1;
    }
    proof {
        assert(bytes@.take(n as int) =~= bytes@);
    }
}

/// Appends a byte sequence rendered like a debug-printed list: `[1, 2, 3]`.
pub fn push_byte_list(out: &mut String, bytes: &[u8])
    ensures
        final(out)@ == old(out)@ + byte_list_rep(bytes@),
{
    proof {
        reveal_strlit("[");
        reveal_strlit("]");
        reveal_strlit(", ");
    }
    out.append("[");
    proof {
        assert(("[")@ =~= seq!['[']);
    }
    let n = bytes.len();
    let mut i: usize = 0;
    while i < n
        invariant
            n == bytes@.len(),
            i <= n,
            out@ == old(out)@ + seq!['['] + byte_list_inner(bytes@.take(i as int)),
        decreases n - i,
    {
        proof {
            reveal_strlit(", ");
            assert(bytes@.take(i + 1).drop_last() =~= bytes@.take(i as int));
            assert(bytes@.take(i + 1).last() == bytes@[i as int]);
        }
        let b = *vstd::slice::slice_index_get(bytes, i);
        if i > 0 {
            out.append(", ");
            proof {
                assert((", ")@ =~= seq![',', ' ']);
            }
        }
        push_dec(out, b as u64);
        proof {
            assert(out@ =~= old(out)@ + seq!['['] + byte_list_inner(bytes@.take(i + 1)));
        }
        i = i + 1;
    }
    out.append("]");
    proof {
        assert(("]")@ =~= seq![']']);
        assert(bytes@.take(n as int) =~= bytes@);
        assert(final(out)@ =~= old(out)@ + byte_list_rep(bytes@));
    }
}

} // verus!
