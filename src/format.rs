use vstd::prelude::*;
use vstd::string::StringSliceAdditionalSpecFns;

use crate::writer::{lemma_painted_concat, painted, Writer};

verus! {

/// The ASCII code of the decimal digit `d`.
pub open spec fn digit(d: nat) -> u8 {
    (48 + d) as u8
}

/// The decimal digits of `n`, most significant first, without leading zeros;
/// zero is the single digit `0`.
pub open spec fn decimal(n: nat) -> Seq<u8>
    decreases n,
{
    if n < 10 {
        seq![digit(n)]
    } else {
        decimal(n / 10).push(digit(n % 10))
    }
}

/// A number below `10^k` has at most `k` digits.
proof fn lemma_decimal_len(n: nat, k: nat)
    requires
        1 <= k,
        n < pow10(k),
    ensures
        1 <= decimal(n).len() <= k,
    decreases k,
{
    if n >= 10 {
        assert(k >= 2) by {
            if k == 1 {
                reveal_with_fuel(pow10, 2);
            }
        }
        assert(pow10(k) == 10 * pow10((k - 1) as nat));
        assert(n / 10 < pow10((k - 1) as nat)) by (nonlinear_arith)
            requires
                n < 10 * pow10((k - 1) as nat),
        ;
        lemma_decimal_len(n / 10, (k - 1) as nat);
    }
}

/// `10^k`.
pub open spec fn pow10(k: nat) -> nat
    decreases k,
{
    if k == 0 {
        1
    } else {
        10 * pow10((k - 1) as nat)
    }
}

/// The bytes of `s` that fit in `max_len`: all of them when `s` is no longer,
/// else its first `max_len` bytes.
pub open spec fn truncated(s: Seq<u8>, max_len: nat) -> Seq<u8> {
    if s.len() <= max_len {
        s
    } else {
        s.take(max_len as int)
    }
}

/// The reversal of `s`.
pub open spec fn reversed(s: Seq<u8>) -> Seq<u8> {
    Seq::new(s.len(), |i: int| s[s.len() - 1 - i])
}

/// Writes the decimal digits of `n`.
pub fn write_number(writer: &mut Writer, n: u32)
    ensures
        final(writer).cells() == old(writer).cells() + painted(
            decimal(n as nat),
            old(writer).fg(),
            old(writer).bg(),
        ),
        final(writer).fg() == old(writer).fg(),
        final(writer).bg() == old(writer).bg(),
{
    if n == 0 {
        writer.write_str("0");
        proof {
            reveal_strlit("0");
            vstd::string::is_ascii_spec_bytes("0");
            assert("0".spec_bytes() =~= decimal(0));
        }
        return;
    }
    let ghost n0 = n as nat;
    proof {
        reveal_with_fuel(pow10, 11);
        assert(pow10(10) == 10000000000);
        lemma_decimal_len(n0, 10);
    }
    let mut buf: [u8; 10] = [0u8; 10];
    let mut m: u32 = n;
    let mut i: usize = 0;
    while m > 0
        invariant
            i <= 10,
            m <= n,
            m > 0 ==> decimal(n0) == decimal(m as nat) + reversed(buf@.take(i as int)),
            m > 0 ==> decimal(n0).len() == decimal(m as nat).len() + i,
            m == 0 ==> decimal(n0) == reversed(buf@.take(i as int)),
            decimal(n0).len() <= 10,
            buf@.len() == 10,
            pow10(10) == 10000000000,
        decreases m,
    {
        proof {
            lemma_decimal_len(m as nat, 10);
        }
        let d = (m % 10) as u8;
        buf[i] = 48 + d;
        let ghost prev = buf@.take(i as int);
        assert(buf@.take(i + 1) == prev.push(digit((m % 10) as nat)));
        assert(reversed(buf@.take(i + 1)) =~= seq![digit((m % 10) as nat)] + reversed(prev));
        m = m / 10;
        i = i + 1;
    }
    let ghost digits = buf@.take(i as int);
    let ghost start = writer.cells();
    let top = i;
    while i > 0
        invariant
            i <= top <= 10,
            buf@.len() == 10,
            digits == buf@.take(top as int),
            writer.fg() == old(writer).fg(),
            writer.bg() == old(writer).bg(),
            writer.cells() == start + painted(
                reversed(digits).take(top - i),
                writer.fg(),
                writer.bg(),
            ),
        decreases i,
    {
        i = i - 1;
        writer.write_byte(buf[i]);
        assert(reversed(digits).take(top - i) =~= reversed(digits).take(top - i - 1).push(
            buf@[i as int],
        ));
        assert(painted(reversed(digits).take(top - i), writer.fg(), writer.bg()) =~= painted(
            reversed(digits).take(top - i - 1),
            writer.fg(),
            writer.bg(),
        ).push(crate::writer::ColoredByte { byte: buf@[i as int], fg: writer.fg(), bg: writer.bg() }));
    }
    assert(reversed(digits).take(top as int) =~= decimal(n0));
}

/// Writes `s`, cut to its first `max_len` bytes when it is longer. The cut
/// does not look at character boundaries.
pub fn write_truncated(writer: &mut Writer, s: &[u8], max_len: usize)
    ensures
        final(writer).cells() == old(writer).cells() + painted(
            truncated(s@, max_len as nat),
            old(writer).fg(),
            old(writer).bg(),
        ),
        final(writer).fg() == old(writer).fg(),
        final(writer).bg() == old(writer).bg(),
{
    if s.len() <= max_len {
        writer.write_bytes(s);
    } else {
        let head = vstd::slice::slice_subrange(s, 0, max_len);
        writer.write_bytes(head);
        assert(head@ =~= s@.take(max_len as int));
    }
}

/// An elapsed time as text: `"{h}h "` when there are whole hours, then
/// always `"{m}m {s}s"`.
pub open spec fn uptime_text(hours: nat, minutes: nat, seconds: nat) -> Seq<u8> {
    (if hours > 0 {
        decimal(hours) + "h ".spec_bytes()
    } else {
        Seq::empty()
    }) + decimal(minutes) + "m ".spec_bytes() + decimal(seconds) + "s".spec_bytes()
}

/// Writes an elapsed time given in hours, minutes and seconds.
pub fn write_uptime(writer: &mut Writer, hours: u32, minutes: u32, seconds: u32)
    ensures
        final(writer).cells() == old(writer).cells() + painted(
            uptime_text(hours as nat, minutes as nat, seconds as nat),
            old(writer).fg(),
            old(writer).bg(),
        ),
        final(writer).fg() == old(writer).fg(),
        final(writer).bg() == old(writer).bg(),
{
    let ghost fg = writer.fg();
    let ghost bg = writer.bg();
    let ghost start = writer.cells();
    let ghost lead: Seq<u8> = if hours > 0 {
        decimal(hours as nat) + "h ".spec_bytes()
    } else {
        Seq::empty()
    };
    if hours > 0 {
        write_number(writer, hours);
        writer.write_str("h ");
        proof {
            lemma_painted_concat(decimal(hours as nat), "h ".spec_bytes(), fg, bg);
        }
    }
    assert(writer.cells() =~= start + painted(lead, fg, bg));
    write_number(writer, minutes);
    writer.write_str("m ");
    write_number(writer, seconds);
    writer.write_str("s");
    proof {
        let a = lead + decimal(minutes as nat);
        let b = a + "m ".spec_bytes();
        let c = b + decimal(seconds as nat);
        lemma_painted_concat(lead, decimal(minutes as nat), fg, bg);
        lemma_painted_concat(a, "m ".spec_bytes(), fg, bg);
        lemma_painted_concat(b, decimal(seconds as nat), fg, bg);
        lemma_painted_concat(c, "s".spec_bytes(), fg, bg);
        assert(writer.cells() =~= start + painted(c + "s".spec_bytes(), fg, bg));
    }
}

} // verus!
