//! Byte strings: comparison in fixed time, hexadecimal text, printable previews.

use vstd::prelude::*;

verus! {

/// The longest part of a byte string that a preview shows.
pub const PREVIEW_LEN: usize = 120;

/// Compares two byte strings without stopping at the first difference, so that
/// the time taken does not tell how many leading bytes agree.
pub fn constant_time_eq(a: &[u8], b: &[u8]) -> (same: bool)
    ensures
        same == (a@ == b@),
{
    if a.len() != b.len() {
        return false;
    }
    let mut acc: u8 = 0;
    let mut i: usize = 0;
    assert(a@.take(0) =~= b@.take(0));
    while i < a.len()
        invariant
            i <= a.len(),
            a.len() == b.len(),
            acc == 0 <==> a@.take(i as int) == b@.take(i as int),
        decreases a.len() - i,
    {
        let x: u8 = a[i];
        let y: u8 = b[i];
        assert((acc | (x ^ y)) == 0 <==> acc == 0 && x == y) by (bit_vector);
        assert(a@.take(i + 1) =~= a@.take(i as int).push(x));
        assert(b@.take(i + 1) =~= b@.take(i as int).push(y));
        assert(a@.take(i as int) =~= a@.take(i + 1).drop_last());
        assert(b@.take(i as int) =~= b@.take(i + 1).drop_last());
        assert(a@.take(i + 1)[i as int] == x && b@.take(i + 1)[i as int] == y);
        acc = acc | (x ^ y);
        i = i + 1;
    }
    assert(a@.take(i as int) =~= a@ && b@.take(i as int) =~= b@);
    acc == 0
}

/// The lowercase hexadecimal digit of `n`, for `n` below 16.
pub open spec fn hex_digit(n: int) -> char {
    if n < 10 {
        (('0' as int) + n) as char
    } else {
        (('a' as int) + n - 10) as char
    }
}

/// `bytes` in hexadecimal: two lowercase digits for each byte, the high one first.
pub open spec fn hex_text(bytes: Seq<u8>) -> Seq<char> {
    Seq::new(
        2 * bytes.len(),
        |i: int|
            if i % 2 == 0 {
                hex_digit(bytes[i / 2] as int / 16)
            } else {
                hex_digit(bytes[i / 2] as int % 16)
            },
    )
}

fn digit_of(n: u8) -> (digit: char)
    requires
        n < 16,
    ensures
        digit == hex_digit(n as int),
{
    if n < 10 {
        (0x30 + n) as char
    } else {
        (0x61 + (n - 10)) as char
    }
}

/// Hex-encodes `bytes` (lowercase, unpadded).
pub fn encode_hex(bytes: &[u8]) -> (text: String)
    ensures
        text@ == hex_text(bytes@),
{
    let mut text = String::new();
    let mut i: usize = 0;
    while i < bytes.len()
        invariant
            i <= bytes.len(),
            text@ == hex_text(bytes@.take(i as int)),
        decreases bytes.len() - i,
    {
        let b: u8 = bytes[i];
        text.push(digit_of(b / 16));
        text.push(digit_of(b % 16));
        assert(text@ =~= hex_text(bytes@.take(i + 1)));
        i = i + 1;
    }
    assert(bytes@.take(i as int) =~= bytes@);
    text
}

/// Whether `b` is an ASCII character that a preview shows as it is.
pub open spec fn is_printable(b: u8) -> bool {
    0x20 <= b <= 0x7e
}

/// The preview of `data`: its first bytes, each as its ASCII character or, where
/// that is not printable, as a full stop; then an ellipsis, where bytes are left out.
pub open spec fn preview_text(data: Seq<u8>) -> Seq<char> {
    let shown = if data.len() < PREVIEW_LEN {
        data.len() as int
    } else {
        PREVIEW_LEN as int
    };
    data.take(shown).map_values(
        |b: u8|
            if is_printable(b) {
                b as char
            } else {
                '.'
            },
    ) + if data.len() > PREVIEW_LEN {
        seq!['.', '.', '.']
    } else {
        Seq::empty()
    }
}

/// Renders the first bytes of `data` as printable ASCII, to see at a glance
/// whether a handshake looks intact. Forwarded traffic can carry credentials, so
/// nothing here logs such a preview.
pub fn byte_preview(data: &[u8]) -> (text: String)
    ensures
        text@ == preview_text(data@),
{
    let shown: usize = if data.len() < PREVIEW_LEN {
        data.len()
    } else {
        PREVIEW_LEN
    };
    let mut text = String::new();
    let mut i: usize = 0;
    while i < shown
        invariant
            i <= shown,
            shown <= PREVIEW_LEN,
            shown <= data.len(),
            text@ == preview_text(data@.take(i as int)),
        decreases shown - i,
    {
        let b: u8 = data[i];
        if 0x20 <= b && b <= 0x7e {
            text.push(b as char);
        } else {
            text.push('.');
        }
        assert(text@ =~= preview_text(data@.take(i + 1)));
        i = i + 1;
    }
    if data.len() > PREVIEW_LEN {
        text.push('.');
        text.push('.');
        text.push('.');
    }
    assert(text@ =~= preview_text(data@));
    text
}

/// Distinct byte strings have distinct hexadecimal texts.
pub proof fn law_hex_is_injective(a: Seq<u8>, b: Seq<u8>)
    ensures
        hex_text(a) == hex_text(b) <==> a == b,
{
    if hex_text(a) == hex_text(b) {
        assert(hex_text(a).len() == 2 * a.len() && hex_text(b).len() == 2 * b.len());
        assert forall|i: int| 0 <= i < a.len() implies a[i] == b[i] by {
            let x = a[i] as int;
            let y = b[i] as int;
            assert((2 * i) / 2 == i && (2 * i) % 2 == 0);
            assert((2 * i + 1) / 2 == i && (2 * i + 1) % 2 == 1);
            assert(hex_text(a)[2 * i] == hex_digit(x / 16));
            assert(hex_text(b)[2 * i] == hex_digit(y / 16));
            assert(hex_text(a)[2 * i + 1] == hex_digit(x % 16));
            assert(hex_text(b)[2 * i + 1] == hex_digit(y % 16));
            lemma_hex_digit_injective(x / 16, y / 16);
            lemma_hex_digit_injective(x % 16, y % 16);
        }
        assert(a =~= b);
    }
}

proof fn lemma_hex_digit_injective(m: int, n: int)
    requires
        0 <= m < 16,
        0 <= n < 16,
        hex_digit(m) == hex_digit(n),
    ensures
        m == n,
{
}

/// A hexadecimal text is ASCII and holds lowercase hexadecimal digits alone.
pub proof fn law_hex_digits_only(bytes: Seq<u8>)
    ensures
        hex_text(bytes).len() == 2 * bytes.len(),
        forall|i: int|
            0 <= i < hex_text(bytes).len() ==> {
                let c = #[trigger] hex_text(bytes)[i];
                '0' <= c <= '9' || 'a' <= c <= 'f'
            },
{
}

proof fn lemma_hex_alphabet(n: int)
    requires
        0 <= n < 16,
    ensures
        hex_digit(n) == "0123456789abcdef"@[n],
{
    reveal_strlit("0123456789abcdef");
    if n == 0 || n == 1 || n == 2 || n == 3 || n == 4 || n == 5 || n == 6 || n == 7 {
    } else if n == 8 || n == 9 || n == 10 || n == 11 {
    } else {
        assert(n == 12 || n == 13 || n == 14 || n == 15);
    }
}

/// Whether `digits` spell `bytes`: for each byte, its high and then its low half, as
/// places in the alphabet of hexadecimal digits.
pub open spec fn spells(digits: Seq<char>, bytes: Seq<u8>) -> bool {
    &&& digits.len() == 2 * bytes.len()
    &&& forall|i: int|
        0 <= i < bytes.len() ==> digits[2 * i] == "0123456789abcdef"@[(#[trigger] bytes[i]) as int
            / 16] && digits[2 * i + 1] == "0123456789abcdef"@[bytes[i] as int % 16]
}

/// A hexadecimal text spells its bytes, and is the only text that does.
pub proof fn law_hex_spells_the_bytes(bytes: Seq<u8>, digits: Seq<char>)
    ensures
        spells(digits, bytes) <==> digits == hex_text(bytes),
{
    let hex = hex_text(bytes);
    assert forall|i: int| 0 <= i < bytes.len() implies hex[2 * i] == "0123456789abcdef"@[(
    #[trigger] bytes[i]) as int / 16] && hex[2 * i + 1] == "0123456789abcdef"@[bytes[i] as int
        % 16] by {
        assert((2 * i) / 2 == i && (2 * i) % 2 == 0);
        assert((2 * i + 1) / 2 == i && (2 * i + 1) % 2 == 1);
        lemma_hex_alphabet(bytes[i] as int / 16);
        lemma_hex_alphabet(bytes[i] as int % 16);
    }
    if spells(digits, bytes) {
        assert forall|k: int| 0 <= k < digits.len() implies digits[k] == hex[k] by {
            let i = k / 2;
            assert(bytes[i] == bytes[i]);
            assert(k == 2 * i || k == 2 * i + 1);
        }
        assert(digits =~= hex);
    }
}

/// A preview shows at most 120 bytes, each printable ASCII character as itself and
/// every other byte as a full stop; three more full stops stand behind them exactly
/// where there are more bytes.
pub proof fn law_preview_shows_the_first_bytes(data: Seq<u8>, i: int)
    ensures
        data.len() <= 120 ==> preview_text(data).len() == data.len(),
        data.len() > 120 ==> {
            &&& preview_text(data).len() == 123
            &&& preview_text(data).skip(120) == seq!['.', '.', '.']
        },
        0 <= i < data.len() && i < 120 ==> {
            &&& ' ' as int <= data[i] <= '~' as int ==> preview_text(data)[i] as int == data[i]
            &&& !(' ' as int <= data[i] <= '~' as int) ==> preview_text(data)[i] == '.'
        },
{
    if data.len() > 120 {
        assert(preview_text(data).skip(120) =~= seq!['.', '.', '.']);
    }
}

} // verus!
