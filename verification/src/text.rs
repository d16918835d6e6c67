//! Text helpers: comparison, prefixes, blankness, decimal numbers.

use vstd::prelude::*;
use vstd::string::StrSliceExecFns;

verus! {

/// `String::push` of std appends the given character to the end of the string.
pub assume_specification[ String::push ](s: &mut String, c: char)
    ensures
        final(s)@ == old(s)@.push(c),
;

/// Two texts are the same when their UTF-8 encodings are.
pub proof fn lemma_utf8_injective(a: Seq<char>, b: Seq<char>)
    ensures
        vstd::utf8::encode_utf8(a) == vstd::utf8::encode_utf8(b) <==> a == b,
{
    vstd::utf8::encode_utf8_decode_utf8(a);
    vstd::utf8::encode_utf8_decode_utf8(b);
}

/// Whether `text` begins with `prefix`.
pub open spec fn has_prefix(text: Seq<char>, prefix: Seq<char>) -> bool {
    prefix.len() <= text.len() && text.take(prefix.len() as int) == prefix
}

/// Whether `text` begins with `prefix`.
pub fn starts_with(text: &str, prefix: &str) -> (found: bool)
    ensures
        found == has_prefix(text@, prefix@),
{
    let prefix_len: usize = prefix.unicode_len();
    if text.unicode_len() < prefix_len {
        return false;
    }
    let mut i: usize = 0;
    while i < prefix_len
        invariant
            i <= prefix_len,
            prefix_len == prefix@.len(),
            prefix_len <= text@.len(),
            text@.take(i as int) == prefix@.take(i as int),
        decreases prefix_len - i,
    {
        if text.get_char(i) != prefix.get_char(i) {
            assert(text@.take(prefix_len as int)[i as int] != prefix@[i as int]);
            return false;
        }
        assert(text@.take(i + 1) =~= text@.take(i as int).push(text@[i as int]));
        assert(prefix@.take(i + 1) =~= prefix@.take(i as int).push(prefix@[i as int]));
        i = i + 1;
    }
    assert(prefix@.take(prefix_len as int) =~= prefix@);
    true
}

/// Whether the two texts hold the same characters.
pub fn same_text(a: &str, b: &str) -> (same: bool)
    ensures
        same == (a@ == b@),
{
    a.to_owned() == b.to_owned()
}

/// How two texts stand in the order of their characters.
#[derive(Clone, Copy, Debug, PartialEq, Eq, Structural)]
pub enum TextOrder {
    Before,
    Same,
    After,
}

/// Whether `a` and `b` agree in their first `k` characters, and then `a` ends while
/// `b` goes on, or goes on with the lower character.
pub open spec fn precedes_at(a: Seq<char>, b: Seq<char>, k: int) -> bool {
    &&& 0 <= k <= a.len()
    &&& k < b.len()
    &&& forall|i: int| 0 <= i < k ==> a[i] == b[i]
    &&& k == a.len() || a[k] < b[k]
}

/// Whether `a` comes before `b` in the order of their characters.
pub open spec fn precedes(a: Seq<char>, b: Seq<char>) -> bool {
    exists|k: int| precedes_at(a, b, k)
}

/// No text comes before itself, and of two texts one at most comes before the other.
pub proof fn law_order_is_strict(a: Seq<char>, b: Seq<char>)
    ensures
        precedes(a, b) ==> !precedes(b, a) && a != b,
{
    if precedes(a, b) {
        let k = choose|k: int| precedes_at(a, b, k);
        if precedes(b, a) {
            let l = choose|l: int| precedes_at(b, a, l);
            if k < l {
                assert(b[k] == a[k]);
            } else if l < k {
                assert(a[l] == b[l]);
            }
        }
    }
}

/// The order of texts is transitive.
pub proof fn law_order_is_transitive(a: Seq<char>, b: Seq<char>, c: Seq<char>)
    requires
        precedes(a, b),
        precedes(b, c),
    ensures
        precedes(a, c),
{
    let k = choose|k: int| precedes_at(a, b, k);
    let l = choose|l: int| precedes_at(b, c, l);
    let m = if k < l {
        k
    } else {
        l
    };
    assert(precedes_at(a, c, m));
}

/// How `a` and `b` stand in the order of their characters.
pub fn text_order(a: &str, b: &str) -> (order: TextOrder)
    ensures
        order == TextOrder::Before <==> precedes(a@, b@),
        order == TextOrder::Same <==> a@ == b@,
        order == TextOrder::After <==> precedes(b@, a@),
{
    proof {
        law_order_is_strict(a@, b@);
        law_order_is_strict(b@, a@);
    }
    let a_len: usize = a.unicode_len();
    let b_len: usize = b.unicode_len();
    let mut i: usize = 0;
    while i < a_len && i < b_len
        invariant
            a_len == a@.len(),
            b_len == b@.len(),
            i <= a_len,
            i <= b_len,
            forall|j: int| 0 <= j < i ==> a@[j] == b@[j],
            precedes(a@, b@) ==> !precedes(b@, a@) && a@ != b@,
            precedes(b@, a@) ==> !precedes(a@, b@) && b@ != a@,
        decreases a_len - i,
    {
        let x: char = a.get_char(i);
        let y: char = b.get_char(i);
        if x < y {
            assert(precedes_at(a@, b@, i as int));
            return TextOrder::Before;
        }
        if y < x {
            assert(precedes_at(b@, a@, i as int));
            return TextOrder::After;
        }
        i = i + 1;
    }
    if i < b_len {
        assert(precedes_at(a@, b@, i as int));
        TextOrder::Before
    } else if i < a_len {
        assert(precedes_at(b@, a@, i as int));
        TextOrder::After
    } else {
        assert(a@ =~= b@);
        TextOrder::Same
    }
}

/// Whether `c` has the Unicode property `White_Space`.
pub open spec fn is_white_space(c: char) -> bool {
    let n = c as u32;
    ||| 0x9 <= n <= 0xd
    ||| n == 0x20
    ||| n == 0x85
    ||| n == 0xa0
    ||| n == 0x1680
    ||| 0x2000 <= n <= 0x200a
    ||| n == 0x2028
    ||| n == 0x2029
    ||| n == 0x202f
    ||| n == 0x205f
    ||| n == 0x3000
}

/// `char::is_whitespace` of std tells whether the character has the property
/// `White_Space` of the Unicode character database.
pub assume_specification[ char::is_whitespace ](c: char) -> (white: bool)
    ensures
        white == is_white_space(c),
;

/// Whether nothing is left of `text` when white space is trimmed off.
pub open spec fn blank(text: Seq<char>) -> bool {
    forall|i: int| 0 <= i < text.len() ==> is_white_space(#[trigger] text[i])
}

/// Whether nothing is left of `text` when white space is trimmed off.
pub fn is_blank(text: &str) -> (empty: bool)
    ensures
        empty == blank(text@),
{
    let len: usize = text.unicode_len();
    let mut i: usize = 0;
    while i < len
        invariant
            len == text@.len(),
            i <= len,
            forall|j: int| 0 <= j < i ==> is_white_space(#[trigger] text@[j]),
        decreases len - i,
    {
        if !text.get_char(i).is_whitespace() {
            return false;
        }
        i = i + 1;
    }
    true
}

/// The decimal digit of `n`, for `n` below 10.
pub open spec fn decimal_digit(n: nat) -> char {
    (('0' as nat) + n) as char
}

/// `n` in decimal, without leading zeros.
pub open spec fn decimal(n: nat) -> Seq<char>
    decreases n,
{
    if n < 10 {
        seq![decimal_digit(n)]
    } else {
        decimal(n / 10).push(decimal_digit(n % 10))
    }
}

/// `n` in decimal, without leading zeros.
pub fn decimal_text(n: u16) -> (text: String)
    ensures
        text@ == decimal(n as nat),
    decreases n,
{
    let mut text = if n < 10 {
        String::new()
    } else {
        decimal_text(n / 10)
    };
    text.push((0x30 + (n % 10) as u8) as char);
    assert(text@ =~= decimal(n as nat));
    text
}

/// To begin with a prefix is to be that prefix with something behind it.
pub proof fn law_prefix_is_a_beginning(text: Seq<char>, prefix: Seq<char>)
    ensures
        has_prefix(text, prefix) <==> exists|rest: Seq<char>| text == #[trigger] (prefix + rest),
{
    if has_prefix(text, prefix) {
        assert(text =~= prefix + text.skip(prefix.len() as int));
    }
    if exists|rest: Seq<char>| text == #[trigger] (prefix + rest) {
        let rest = choose|rest: Seq<char>| text == #[trigger] (prefix + rest);
        assert((prefix + rest).take(prefix.len() as int) =~= prefix);
    }
}

proof fn lemma_order_from(a: Seq<char>, b: Seq<char>, k: int)
    requires
        0 <= k <= a.len(),
        k <= b.len(),
        forall|i: int| 0 <= i < k ==> a[i] == b[i],
    ensures
        precedes(a, b) || a == b || precedes(b, a),
    decreases a.len() - k,
{
    if k == a.len() && k == b.len() {
        assert(a =~= b);
    } else if k == a.len() {
        assert(precedes_at(a, b, k));
    } else if k == b.len() {
        assert(precedes_at(b, a, k));
    } else if a[k] < b[k] {
        assert(precedes_at(a, b, k));
    } else if b[k] < a[k] {
        assert(precedes_at(b, a, k));
    } else {
        lemma_order_from(a, b, k + 1);
    }
}

/// Of two texts that differ one comes before the other.
pub proof fn law_order_is_total(a: Seq<char>, b: Seq<char>)
    ensures
        precedes(a, b) || a == b || precedes(b, a),
{
    lemma_order_from(a, b, 0);
}

/// The first character in which two texts differ decides which comes first, whatever
/// follows it; and a text comes before those that go on where it ends.
pub proof fn law_order_goes_by_the_first_difference(
    common: Seq<char>,
    x: char,
    y: char,
    after_x: Seq<char>,
    after_y: Seq<char>,
)
    ensures
        x < y ==> precedes(common.push(x) + after_x, common.push(y) + after_y),
        precedes(common, common.push(y) + after_y),
{
    let k = common.len() as int;
    let a = common.push(x) + after_x;
    let b = common.push(y) + after_y;
    assert(a[k] == x && b[k] == y);
    if x < y {
        assert(precedes_at(a, b, k));
    }
    assert(precedes_at(common, b, k));
}

/// A text is blank where each of its characters is white space by itself: the empty
/// text is, and a text in two parts is where both parts are.
pub proof fn law_blank_by_parts(a: Seq<char>, b: Seq<char>, c: char)
    ensures
        blank(Seq::empty()),
        blank(seq![c]) <==> is_white_space(c),
        blank(a + b) <==> blank(a) && blank(b),
{
    assert(seq![c][0] == c);
    if blank(a + b) {
        assert forall|i: int| 0 <= i < a.len() implies is_white_space(#[trigger] a[i]) by {
            assert((a + b)[i] == a[i]);
        }
        assert forall|i: int| 0 <= i < b.len() implies is_white_space(#[trigger] b[i]) by {
            assert((a + b)[a.len() + i] == b[i]);
        }
    }
}

/// No printable ASCII character but the space is white space.
pub proof fn law_visible_characters_are_not_white(c: char)
    requires
        '!' <= c <= '~',
    ensures
        !is_white_space(c),
{
}

/// The number that decimal digits stand for.
pub open spec fn decimal_value(digits: Seq<char>) -> int
    decreases digits.len(),
{
    if digits.len() == 0 {
        0
    } else {
        10 * decimal_value(digits.drop_last()) + (digits.last() as int - '0' as int)
    }
}

/// A number in decimal reads back as that number. It holds digits alone, and begins
/// with a zero only where it is zero.
pub proof fn law_decimal_reads_back(n: nat)
    ensures
        decimal_value(decimal(n)) == n,
        decimal(n).len() > 0,
        forall|i: int| 0 <= i < decimal(n).len() ==> '0' <= #[trigger] decimal(n)[i] <= '9',
        decimal(n)[0] == '0' ==> decimal(n).len() == 1,
        n > 0 ==> decimal(n)[0] != '0',
    decreases n,
{
    reveal_with_fuel(decimal_value, 2);
    if n < 10 {
        assert(decimal(n).drop_last() =~= Seq::<char>::empty());
        assert(decimal(n).last() as int == '0' as int + n);
    } else {
        let head = decimal(n / 10);
        law_decimal_reads_back(n / 10);
        assert(decimal(n) == head.push(decimal_digit(n % 10)));
        assert(decimal(n).drop_last() =~= head);
        assert(decimal(n).last() as int == '0' as int + n % 10);
        assert(decimal(n)[0] == head[0]);
    }
}

} // verus!
