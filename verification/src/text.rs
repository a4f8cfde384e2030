//! Verified text helpers: string-slice equality and hexadecimal
//! rendering of register values.

use vstd::prelude::*;
use vstd::string::*;

verus! {

/// Relies on `str`'s `PartialEq`: two string slices compare equal
/// exactly when their character sequences are equal.
#[verifier::external_body]
pub fn str_eq(a: &str, b: &str) -> (r: bool)
    ensures
        r == (a@ == b@),
{
    a == b
}

/// The lower-case hexadecimal digit for a value below 16.
pub open spec fn hex_char(d: nat) -> char
    recommends
        d < 16,
{
    if d == 0 {
        '0'
    } else if d == 1 {
        '1'
    } else if d == 2 {
        '2'
    } else if d == 3 {
        '3'
    } else if d == 4 {
        '4'
    } else if d == 5 {
        '5'
    } else if d == 6 {
        '6'
    } else if d == 7 {
        '7'
    } else if d == 8 {
        '8'
    } else if d == 9 {
        '9'
    } else if d == 10 {
        'a'
    } else if d == 11 {
        'b'
    } else if d == 12 {
        'c'
    } else if d == 13 {
        'd'
    } else if d == 14 {
        'e'
    } else {
        'f'
    }
}

/// The `n` low-order hexadecimal digits of `v`, most significant
/// first, zero-padded on the left.
pub open spec fn hex_digits(v: nat, n: nat) -> Seq<char>
    decreases n,
{
    if n == 0 {
        Seq::empty()
    } else {
        hex_digits(v / 16, (n - 1) as nat).push(hex_char(v % 16))
    }
}

/// A value rendered as `0x` followed by exactly `n` hexadecimal
/// digits.
pub open spec fn hex_format(v: nat, n: nat) -> Seq<char> {
    "0x"@ + hex_digits(v, n)
}

/// `hex_digits` renders exactly as many characters as asked.
pub proof fn lemma_hex_digits_len(v: nat, n: nat)
    ensures
        hex_digits(v, n).len() == n,
    decreases n,
{
    if n > 0 {
        lemma_hex_digits_len(v / 16, (n - 1) as nat);
    }
}

/// A value rendered by `hex_format` has `2 + n` characters.
pub proof fn lemma_hex_format_len(v: nat, n: nat)
    ensures
        hex_format(v, n).len() == 2 + n,
{
    reveal_strlit("0x");
    lemma_hex_digits_len(v, n);
}

/// The single-character string for a hexadecimal digit.
fn hex_digit_str(d: u8) -> (r: &'static str)
    requires
        d < 16,
    ensures
        r@ =~= seq![hex_char(d as nat)],
{
    proof {
        reveal_strlit("0");
        reveal_strlit("1");
        reveal_strlit("2");
        reveal_strlit("3");
        reveal_strlit("4");
        reveal_strlit("5");
        reveal_strlit("6");
        reveal_strlit("7");
        reveal_strlit("8");
        reveal_strlit("9");
        reveal_strlit("a");
        reveal_strlit("b");
        reveal_strlit("c");
        reveal_strlit("d");
        reveal_strlit("e");
        reveal_strlit("f");
    }
    if d == 0 {
        "0"
    } else if d == 1 {
        "1"
    } else if d == 2 {
        "2"
    } else if d == 3 {
        "3"
    } else if d == 4 {
        "4"
    } else if d == 5 {
        "5"
    } else if d == 6 {
        "6"
    } else if d == 7 {
        "7"
    } else if d == 8 {
        "8"
    } else if d == 9 {
        "9"
    } else if d == 10 {
        "a"
    } else if d == 11 {
        "b"
    } else if d == 12 {
        "c"
    } else if d == 13 {
        "d"
    } else if d == 14 {
        "e"
    } else {
        "f"
    }
}

/// Append the `n` low-order hexadecimal digits of `v` to `out`,
/// most significant first.
pub fn push_hex_u64(v: u64, n: usize, out: &mut String)
    ensures
        final(out)@ == old(out)@ + hex_digits(v as nat, n as nat),
    decreases n,
{
    if n == 0 {
        proof {
            assert(old(out)@ + hex_digits(v as nat, 0) =~= old(out)@);
        }
    } else {
        push_hex_u64(v / 16, n - 1, out);
        let d: u8 = (v % 16) as u8;
        let ds = hex_digit_str(d);
        out.append(ds);
        proof {
            assert(final(out)@ =~= old(out)@ + hex_digits(v as nat, n as nat));
        }
    }
}

/// Render `v` as `0x` followed by exactly `digits` lower-case
/// hexadecimal digits, zero-padded.
pub fn format_hex_u64(v: u64, digits: usize) -> (r: String)
    ensures
        r@ == hex_format(v as nat, digits as nat),
{
    let mut s = String::from_str("0x");
    push_hex_u64(v, digits, &mut s);
    s
}

/// The decimal digit character for a value below 10.
pub open spec fn dec_char(d: nat) -> char
    recommends
        d < 10,
{
    hex_char(d)
}

/// The decimal digits of `v`, most significant first, no leading
/// zeroes (a single `0` for zero).
pub open spec fn dec_digits(v: nat) -> Seq<char>
    decreases v,
{
    if v < 10 {
        seq![dec_char(v)]
    } else {
        dec_digits(v / 10).push(dec_char(v % 10))
    }
}

/// Append the decimal rendering of `v` to `out`.
pub fn push_dec_u32(v: u32, out: &mut String)
    ensures
        final(out)@ == old(out)@ + dec_digits(v as nat),
    decreases v,
{
    if v < 10 {
        let ds = hex_digit_str((v % 16) as u8);
        out.append(ds);
        proof {
            assert(final(out)@ =~= old(out)@ + dec_digits(v as nat));
        }
    } else {
        push_dec_u32(v / 10, out);
        let d: u8 = (v % 10) as u8;
        let ds = hex_digit_str(d);
        out.append(ds);
        proof {
            assert(final(out)@ =~= old(out)@ + dec_digits(v as nat));
        }
    }
}

/// Render `v` in decimal.
pub fn format_dec_u32(v: u32) -> (r: String)
    ensures
        r@ == dec_digits(v as nat),
{
    let mut s = String::new();
    push_dec_u32(v, &mut s);
    proof {
        assert(Seq::<char>::empty() + dec_digits(v as nat) =~= dec_digits(v as nat));
    }
    s
}

/// The hexadecimal digits of `v`, most significant first, no leading
/// zeroes (a single `0` for zero).
pub open spec fn hex_min_digits(v: nat) -> Seq<char>
    decreases v,
{
    if v < 16 {
        seq![hex_char(v)]
    } else {
        hex_min_digits(v / 16).push(hex_char(v % 16))
    }
}

/// Append the minimal-width hexadecimal digits of `v` to `out`.
pub fn push_hex_min_u64(v: u64, out: &mut String)
    ensures
        final(out)@ == old(out)@ + hex_min_digits(v as nat),
    decreases v,
{
    if v < 16 {
        let ds = hex_digit_str(v as u8);
        out.append(ds);
        proof {
            assert(final(out)@ =~= old(out)@ + hex_min_digits(v as nat));
        }
    } else {
        push_hex_min_u64(v / 16, out);
        let d: u8 = (v % 16) as u8;
        let ds = hex_digit_str(d);
        out.append(ds);
        proof {
            assert(final(out)@ =~= old(out)@ + hex_min_digits(v as nat));
        }
    }
}

/// Powers of sixteen.
pub open spec fn pow16(k: nat) -> nat
    decreases k,
{
    if k == 0 {
        1
    } else {
        16 * pow16((k - 1) as nat)
    }
}

/// A value below the `k`-th power of sixteen has at most `k`
/// minimal-width hexadecimal digits.
proof fn lemma_hex_min_digits_len_bound(v: nat, k: nat)
    requires
        k >= 1,
        v < pow16(k),
    ensures
        hex_min_digits(v).len() <= k,
    decreases k,
{
    if v >= 16 {
        assert(pow16(k) == 16 * pow16((k - 1) as nat));
        assert(v / 16 < pow16((k - 1) as nat)) by (nonlinear_arith)
            requires
                v < 16 * pow16((k - 1) as nat),
        ;
        lemma_hex_min_digits_len_bound(v / 16, (k - 1) as nat);
    }
}

/// How many digits the minimal-width hexadecimal rendering has: at
/// most sixteen for a 64-bit value.
fn hex_min_len_u64(v: u64) -> (r: usize)
    ensures
        r == hex_min_digits(v as nat).len(),
        r <= 16,
    decreases v,
{
    proof {
        reveal_with_fuel(pow16, 17);
        assert(pow16(16) == 0x10000000000000000);
        lemma_hex_min_digits_len_bound(v as nat, 16);
    }
    if v < 16 {
        1
    } else {
        1 + hex_min_len_u64(v / 16)
    }
}

/// The minimal-width hexadecimal digits of `v`, zero-padded on the
/// left to at least `w` characters; wider values keep all their
/// digits.
pub open spec fn hex_zero_pad(v: nat, w: nat) -> Seq<char>
    decreases w,
{
    if hex_min_digits(v).len() >= w {
        hex_min_digits(v)
    } else {
        seq!['0'] + hex_zero_pad(v, (w - 1) as nat)
    }
}

/// Append the hexadecimal digits of `v`, zero-padded on the left to
/// at least `w` characters, never truncated.
pub fn push_hex_zero_pad_u64(v: u64, w: usize, out: &mut String)
    ensures
        final(out)@ == old(out)@ + hex_zero_pad(v as nat, w as nat),
    decreases w,
{
    let len = hex_min_len_u64(v);
    if len >= w {
        push_hex_min_u64(v, out);
    } else {
        out.append("0");
        push_hex_zero_pad_u64(v, w - 1, out);
        proof {
            reveal_strlit("0");
            assert("0"@ =~= seq!['0']);
            assert(final(out)@ =~= old(out)@ + hex_zero_pad(v as nat, w as nat));
        }
    }
}

/// Append the minimal-width hexadecimal digits of `v` to `out`.
pub fn push_hex_min_u128(v: u128, out: &mut String)
    ensures
        final(out)@ == old(out)@ + hex_min_digits(v as nat),
    decreases v,
{
    if v < 16 {
        let ds = hex_digit_str(v as u8);
        out.append(ds);
        proof {
            assert(final(out)@ =~= old(out)@ + hex_min_digits(v as nat));
        }
    } else {
        push_hex_min_u128(v / 16, out);
        let d: u8 = (v % 16) as u8;
        let ds = hex_digit_str(d);
        out.append(ds);
        proof {
            assert(final(out)@ =~= old(out)@ + hex_min_digits(v as nat));
        }
    }
}

/// The decimal digits of `v`, space-padded on the left to at least
/// `w` characters.
pub open spec fn dec_pad(v: nat, w: nat) -> Seq<char>
    decreases w,
{
    if dec_digits(v).len() >= w {
        dec_digits(v)
    } else {
        seq![' '] + dec_pad(v, (w - 1) as nat)
    }
}

/// Append the decimal digits of `v`, space-padded on the left to at
/// least two characters.
pub fn push_dec_pad2_u32(v: u32, out: &mut String)
    ensures
        final(out)@ == old(out)@ + dec_pad(v as nat, 2),
{
    proof {
        lemma_dec_digits_len_min(v as nat);
    }
    if v < 10 {
        proof {
            assert(dec_digits(v as nat).len() == 1);
        }
        out.append(" ");
        push_dec_u32(v, out);
        proof {
            reveal_strlit(" ");
            assert(" "@ =~= seq![' ']);
            assert(dec_pad(v as nat, 1) == dec_digits(v as nat));
            assert(dec_pad(v as nat, 2) =~= seq![' '] + dec_digits(v as nat));
            assert(final(out)@ =~= old(out)@ + dec_pad(v as nat, 2));
        }
    } else {
        proof {
            assert(dec_digits((v / 10) as nat).len() >= 1);
            assert(dec_digits(v as nat).len() >= 2);
        }
        push_dec_u32(v, out);
    }
}

/// A decimal rendering is never empty.
pub proof fn lemma_dec_digits_len_min(v: nat)
    ensures
        dec_digits(v).len() >= 1,
    decreases v,
{
    if v >= 10 {
        lemma_dec_digits_len_min(v / 10);
    }
}

/// Each byte of `s` as two hexadecimal digits, in order.
pub open spec fn bytes_hex(s: Seq<u8>) -> Seq<char>
    decreases s.len(),
{
    if s.len() == 0 {
        Seq::empty()
    } else {
        bytes_hex(s.drop_last()) + hex_digits(s.last() as nat, 2)
    }
}

/// Append each byte of `s` as two hexadecimal digits.
pub fn push_bytes_hex(s: &[u8], out: &mut String)
    ensures
        final(out)@ == old(out)@ + bytes_hex(s@),
{
    let n = s.len();
    let mut i: usize = 0;
    proof {
        assert(s@.subrange(0, 0) =~= Seq::<u8>::empty());
        assert(old(out)@ + bytes_hex(s@.subrange(0, 0)) =~= old(out)@);
    }
    while i < n
        invariant
            i <= n,
            n == s@.len(),
            out@ == old(out)@ + bytes_hex(s@.subrange(0, i as int)),
        decreases n - i,
    {
        let b = s[i];
        push_hex_u64(b as u64, 2, out);
        proof {
            assert(s@.subrange(0, i + 1).drop_last() =~= s@.subrange(0, i as int));
            assert(s@.subrange(0, i + 1).last() == s@[i as int]);
            assert(out@ =~= old(out)@ + bytes_hex(s@.subrange(0, i + 1)));
        }
        i = i + 1;
    }
    proof {
        assert(s@.subrange(0, n as int) =~= s@);
    }
}

/// The upper-case hexadecimal digit for a value below 16.
pub open spec fn hex_char_upper(d: nat) -> char
    recommends
        d < 16,
{
    if d == 10 {
        'A'
    } else if d == 11 {
        'B'
    } else if d == 12 {
        'C'
    } else if d == 13 {
        'D'
    } else if d == 14 {
        'E'
    } else if d == 15 {
        'F'
    } else {
        hex_char(d)
    }
}

/// The `n` low-order upper-case hexadecimal digits of `v`, most
/// significant first, zero-padded on the left.
pub open spec fn hex_digits_upper(v: nat, n: nat) -> Seq<char>
    decreases n,
{
    if n == 0 {
        Seq::empty()
    } else {
        hex_digits_upper(v / 16, (n - 1) as nat).push(hex_char_upper(v % 16))
    }
}

/// The single-character string for an upper-case hexadecimal digit.
fn hex_digit_str_upper(d: u8) -> (r: &'static str)
    requires
        d < 16,
    ensures
        r@ =~= seq![hex_char_upper(d as nat)],
{
    proof {
        reveal_strlit("A");
        reveal_strlit("B");
        reveal_strlit("C");
        reveal_strlit("D");
        reveal_strlit("E");
        reveal_strlit("F");
    }
    if d == 10 {
        "A"
    } else if d == 11 {
        "B"
    } else if d == 12 {
        "C"
    } else if d == 13 {
        "D"
    } else if d == 14 {
        "E"
    } else if d == 15 {
        "F"
    } else {
        hex_digit_str(d)
    }
}

/// Append the `n` low-order upper-case hexadecimal digits of `v`,
/// most significant first.
pub fn push_hex_upper_u64(v: u64, n: usize, out: &mut String)
    ensures
        final(out)@ == old(out)@ + hex_digits_upper(v as nat, n as nat),
    decreases n,
{
    if n == 0 {
        proof {
            assert(old(out)@ + hex_digits_upper(v as nat, 0) =~= old(out)@);
        }
    } else {
        push_hex_upper_u64(v / 16, n - 1, out);
        let d: u8 = (v % 16) as u8;
        let ds = hex_digit_str_upper(d);
        out.append(ds);
        proof {
            assert(final(out)@ =~= old(out)@ + hex_digits_upper(v as nat, n as nat));
        }
    }
}

/// One labelled hexadecimal line of a context listing.
pub open spec fn line_hex(label: Seq<char>, v: nat) -> Seq<char> {
    label + "0x"@ + hex_min_digits(v) + "\n"@
}

/// Append a labelled hexadecimal line.
pub fn push_line_hex(label: &str, v: u64, out: &mut String)
    ensures
        final(out)@ == old(out)@ + line_hex(label@, v as nat),
{
    out.append(label);
    out.append("0x");
    push_hex_min_u64(v, out);
    out.append("\n");
    proof {
        assert(final(out)@ =~= old(out)@ + line_hex(label@, v as nat));
    }
}

/// One indexed hexadecimal line of a register-file listing: the
/// index space-padded to two places inside the label.
pub open spec fn indexed_line(prefix: Seq<char>, mid: Seq<char>, i: nat, v: nat) -> Seq<char> {
    prefix + dec_pad(i, 2) + mid + "0x"@ + hex_min_digits(v) + "\n"@
}

/// The first `n` indexed lines of a register file.
pub open spec fn indexed_lines(prefix: Seq<char>, mid: Seq<char>, vs: Seq<nat>, n: int) -> Seq<
    char,
>
    decreases n,
{
    if n <= 0 {
        Seq::empty()
    } else {
        indexed_lines(prefix, mid, vs, n - 1) + indexed_line(
            prefix,
            mid,
            (n - 1) as nat,
            vs[n - 1],
        )
    }
}

/// Append one indexed hexadecimal line.
pub fn push_indexed_line(prefix: &str, i: u32, mid: &str, v: u64, out: &mut String)
    ensures
        final(out)@ == old(out)@ + indexed_line(prefix@, mid@, i as nat, v as nat),
{
    out.append(prefix);
    push_dec_pad2_u32(i, out);
    out.append(mid);
    out.append("0x");
    push_hex_min_u64(v, out);
    out.append("\n");
    proof {
        assert(final(out)@ =~= old(out)@ + indexed_line(prefix@, mid@, i as nat, v as nat));
    }
}

/// Append one indexed hexadecimal line for a 128-bit value.
pub fn push_indexed_line_u128(prefix: &str, i: u32, mid: &str, v: u128, out: &mut String)
    ensures
        final(out)@ == old(out)@ + indexed_line(prefix@, mid@, i as nat, v as nat),
{
    out.append(prefix);
    push_dec_pad2_u32(i, out);
    out.append(mid);
    out.append("0x");
    push_hex_min_u128(v, out);
    out.append("\n");
    proof {
        assert(final(out)@ =~= old(out)@ + indexed_line(prefix@, mid@, i as nat, v as nat));
    }
}

/// The 16-bit code units stored pairwise in `s` in byte order `e`;
/// a trailing odd byte is ignored.
pub open spec fn utf16_units(s: Seq<u8>, e: crate::Endianness) -> Seq<u16> {
    Seq::new((s.len() / 2) as nat, |i: int| crate::bytes::u16_of(e, s.subrange(2 * i, 2 * i + 2)))
}

/// The characters that lossy UTF-16 decoding yields for a sequence of
/// code units.
pub uninterp spec fn utf16_lossy(units: Seq<u16>) -> Seq<char>;

/// Relies on `String::from_utf16_lossy`: decodes UTF-16, replacing
/// unpaired surrogates with U+FFFD. The result depends on the code
/// units alone; units below the surrogate range decode one-to-one to
/// the characters with those code points.
#[verifier::external_body]
pub fn utf16_lossy_to_string(units: &Vec<u16>) -> (r: String)
    ensures
        r@ == utf16_lossy(units@),
        (forall|i: int| 0 <= i < units@.len() ==> #[trigger] units@[i] < 0xd800) ==> r@.len()
            == units@.len() && forall|i: int|
            0 <= i < units@.len() ==> (#[trigger] r@[i]) as u32 == units@[i] as u32,
{
    String::from_utf16_lossy(units.as_slice())
}

/// Read the 16-bit code units stored pairwise in `s` in byte order
/// `e`; a trailing odd byte is ignored.
pub fn read_utf16_units(s: &[u8], e: crate::Endianness) -> (r: Vec<u16>)
    ensures
        r@ == utf16_units(s@, e),
{
    let slen = s.len();
    let n = slen / 2;
    let mut units: Vec<u16> = Vec::new();
    let mut i: usize = 0;
    while i < n
        invariant
            i <= n,
            slen == s@.len(),
            n == s@.len() / 2,
            units@.len() == i as int,
            forall|j: int|
                0 <= j < i ==> units@[j] == crate::bytes::u16_of(
                    e,
                    s@.subrange(2 * j, 2 * j + 2),
                ),
        decreases n - i,
    {
        let mut cur = crate::bytes::Cursor::at(s, 2 * i).unwrap();
        let u = cur.read_u16(e).unwrap();
        units.push(u);
        i = i + 1;
    }
    proof {
        assert(units@ =~= utf16_units(s@, e));
    }
    units
}

/// The length-prefixed UTF-16 string stored at `rva` in `buf`: a
/// 32-bit byte count followed by that many bytes of UTF-16 code
/// units, decoded lossily; nothing when the prefix or the bytes it
/// counts run past the end of the buffer.
pub open spec fn spec_string_at(buf: Seq<u8>, rva: u32, e: crate::Endianness) -> Option<Seq<char>> {
    if rva + 4 <= buf.len() && rva + 4 + crate::bytes::u32_of(e, buf.subrange(rva as int, rva + 4))
        <= buf.len() {
        Option::Some(
            utf16_lossy(
                utf16_units(
                    buf.subrange(
                        rva + 4,
                        rva + 4 + crate::bytes::u32_of(e, buf.subrange(rva as int, rva + 4)),
                    ),
                    e,
                ),
            ),
        )
    } else {
        Option::None
    }
}

/// Decode the length-prefixed UTF-16 string stored at `rva` in `buf`.
pub fn read_string_utf16(buf: &[u8], rva: u32, e: crate::Endianness) -> (r: Option<String>)
    ensures
        match r {
            Option::Some(st) => spec_string_at(buf@, rva, e) == Option::Some(st@),
            Option::None => spec_string_at(buf@, rva, e) is None,
        },
{
    if rva as u64 + 4 > buf.len() as u64 {
        return Option::None;
    }
    let mut cur = crate::bytes::Cursor::at(buf, rva as usize).unwrap();
    let byte_len = cur.read_u32(e).unwrap();
    match cur.read_bytes(byte_len as usize) {
        Option::Some(sub) => {
            let units = read_utf16_units(sub, e);
            Option::Some(utf16_lossy_to_string(&units))
        },
        Option::None => Option::None,
    }
}

} // verus!
