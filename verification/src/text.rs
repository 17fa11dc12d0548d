//! Text as sequences of characters: trimming, prefixes, decimal numbers and
//! the order of strings.

use vstd::prelude::*;
use vstd::string::*;
use vstd::utf8::*;

verus! {

/// The characters with the Unicode `White_Space` property.
pub open spec fn is_white_space(c: char) -> bool {
    ||| '\u{9}' <= c <= '\u{d}'
    ||| c == '\u{20}'
    ||| c == '\u{85}'
    ||| c == '\u{a0}'
    ||| c == '\u{1680}'
    ||| '\u{2000}' <= c <= '\u{200a}'
    ||| c == '\u{2028}'
    ||| c == '\u{2029}'
    ||| c == '\u{202f}'
    ||| c == '\u{205f}'
    ||| c == '\u{3000}'
}

/// Whether `c` has the Unicode `White_Space` property.
pub fn white_space(c: char) -> (r: bool)
    ensures
        r == is_white_space(c),
{
    ('\u{9}' <= c && c <= '\u{d}') || c == '\u{20}' || c == '\u{85}' || c == '\u{a0}' || c
        == '\u{1680}' || ('\u{2000}' <= c && c <= '\u{200a}') || c == '\u{2028}' || c == '\u{2029}'
        || c == '\u{202f}' || c == '\u{205f}' || c == '\u{3000}'
}

/// `s` without its leading white space.
pub open spec fn trimmed_start(s: Seq<char>) -> Seq<char>
    decreases s.len(),
{
    if s.len() > 0 && is_white_space(s[0]) {
        trimmed_start(s.drop_first())
    } else {
        s
    }
}

/// `s` without its trailing white space.
pub open spec fn trimmed_end(s: Seq<char>) -> Seq<char>
    decreases s.len(),
{
    if s.len() > 0 && is_white_space(s.last()) {
        trimmed_end(s.drop_last())
    } else {
        s
    }
}

/// `s` without leading and trailing white space.
pub open spec fn trimmed(s: Seq<char>) -> Seq<char> {
    trimmed_end(trimmed_start(s))
}

/// `s` without its trailing slashes.
pub open spec fn without_end_slashes(s: Seq<char>) -> Seq<char>
    decreases s.len(),
{
    if s.len() > 0 && s.last() == '/' {
        without_end_slashes(s.drop_last())
    } else {
        s
    }
}

/// Whether `s` begins with `prefix`.
pub open spec fn has_prefix(s: Seq<char>, prefix: Seq<char>) -> bool {
    prefix.len() <= s.len() && s.take(prefix.len() as int) == prefix
}

/// The characters of `s`, in order.
pub fn chars_of(s: &str) -> (r: Vec<char>)
    ensures
        r@ == s@,
{
    let mut r: Vec<char> = Vec::new();
    for c in it: s.chars()
        invariant
            it.seq() == s@,
            r@ == s@.take(it.index()),
    {
        assert(s@.take(it.index() + 1) == s@.take(it.index()).push(c));
        r.push(c);
    }
    assert(s@.take(s@.len() as int) == s@);
    r
}

/// `s` without leading and trailing white space.
pub fn trim(s: &str) -> (r: &str)
    ensures
        r@ == trimmed(s@),
{
    let chars = chars_of(s);
    let mut from: usize = 0;
    assert(chars@.skip(0) == chars@);
    while from < chars.len() && white_space(chars[from])
        invariant
            from <= chars.len(),
            trimmed_start(chars@) == trimmed_start(chars@.skip(from as int)),
        decreases chars.len() - from,
    {
        assert(chars@.skip(from as int).drop_first() == chars@.skip(from + 1));
        from += 1;
    }
    let mut to: usize = chars.len();
    proof {
        assert(trimmed_start(chars@) == chars@.skip(from as int));
        assert(chars@.subrange(from as int, to as int) == chars@.skip(from as int));
    }
    while to > from && white_space(chars[to - 1])
        invariant
            from <= to <= chars.len(),
            trimmed(chars@) == trimmed_end(chars@.subrange(from as int, to as int)),
        decreases to,
    {
        assert(chars@.subrange(from as int, to as int).drop_last() == chars@.subrange(
            from as int,
            to - 1,
        ));
        to -= 1;
    }
    s.substring_char(from, to)
}

/// `s` without its trailing slashes.
pub fn trim_end_slashes(s: &str) -> (r: &str)
    ensures
        r@ == without_end_slashes(s@),
{
    let chars = chars_of(s);
    let mut to: usize = chars.len();
    assert(chars@.take(to as int) == chars@);
    while to > 0 && chars[to - 1] == '/'
        invariant
            to <= chars.len(),
            without_end_slashes(chars@) == without_end_slashes(chars@.take(to as int)),
        decreases to,
    {
        assert(chars@.take(to as int).drop_last() == chars@.take(to - 1));
        to -= 1;
    }
    assert(chars@.take(to as int) == chars@.subrange(0, to as int));
    s.substring_char(0, to)
}

/// Whether `s` begins with `prefix`.
pub fn starts_with(s: &str, prefix: &str) -> (r: bool)
    ensures
        r == has_prefix(s@, prefix@),
{
    let chars = chars_of(s);
    let wanted = chars_of(prefix);
    if chars.len() < wanted.len() {
        return false;
    }
    let mut i: usize = 0;
    while i < wanted.len()
        invariant
            i <= wanted.len() <= chars.len(),
            chars@ == s@,
            wanted@ == prefix@,
            forall|j: int| 0 <= j < i ==> chars@[j] == wanted@[j],
        decreases wanted.len() - i,
    {
        if chars[i] != wanted[i] {
            assert(chars@.take(wanted@.len() as int)[i as int] != wanted@[i as int]);
            return false;
        }
        i += 1;
    }
    assert(chars@.take(wanted@.len() as int) == wanted@);
    true
}

/// Whether the last character of `s` is a slash.
pub fn ends_with_slash(s: &str) -> (r: bool)
    ensures
        r == (s@.len() > 0 && s@.last() == '/'),
{
    let chars = chars_of(s);
    chars.len() > 0 && chars[chars.len() - 1] == '/'
}

/// Whether two texts hold the same characters.
pub fn same(a: &str, b: &str) -> (r: bool)
    ensures
        r == (a@ == b@),
{
    let x = a.as_bytes();
    let y = b.as_bytes();
    proof {
        encode_utf8_injective(a@, b@);
    }
    if x.len() != y.len() {
        return false;
    }
    let mut i: usize = 0;
    while i < x.len()
        invariant
            i <= x.len() == y.len(),
            x@ == encode_utf8(a@),
            y@ == encode_utf8(b@),
            forall|j: int| 0 <= j < i ==> x@[j] == y@[j],
        decreases x.len() - i,
    {
        if x[i] != y[i] {
            return false;
        }
        i += 1;
    }
    assert(x@ == y@);
    true
}

/// Two texts with the same UTF-8 bytes are the same text.
pub proof fn encode_utf8_injective(a: Seq<char>, b: Seq<char>)
    ensures
        encode_utf8(a) == encode_utf8(b) ==> a == b,
{
    encode_utf8_decode_utf8(a);
    encode_utf8_decode_utf8(b);
}

/// The decimal digit `d`.
pub open spec fn digit(d: int) -> char {
    if d == 0 {
        '0'
    } else if d == 1 {
        '1'
    } else if d == 2 {
        '2'
    } else if d == 3 {
        '3'
    } else if d == 4 {
        '4'
    } else if d == 5 {
        '5'
    } else if d == 6 {
        '6'
    } else if d == 7 {
        '7'
    } else if d == 8 {
        '8'
    } else {
        '9'
    }
}

/// `n` in decimal, without leading zeros.
pub open spec fn decimal_text(n: nat) -> Seq<char>
    decreases n,
{
    if n < 10 {
        seq![digit(n as int)]
    } else {
        decimal_text(n / 10).push(digit((n % 10) as int))
    }
}

fn digit_text(d: u128) -> (r: &'static str)
    requires
        d < 10,
    ensures
        r@ == seq![digit(d as int)],
{
    proof {
        reveal_strlit("0");
        reveal_strlit("1");
        reveal_strlit("2");
        reveal_strlit("3");
        reveal_strlit("4");
        reveal_strlit("5");
        reveal_strlit("6");
        reveal_strlit("7");
        reveal_strlit("8");
        reveal_strlit("9");
    }
    if d == 0 {
        "0"
    } else if d == 1 {
        "1"
    } else if d == 2 {
        "2"
    } else if d == 3 {
        "3"
    } else if d == 4 {
        "4"
    } else if d == 5 {
        "5"
    } else if d == 6 {
        "6"
    } else if d == 7 {
        "7"
    } else if d == 8 {
        "8"
    } else {
        "9"
    }
}

/// `n` in decimal, without leading zeros.
pub fn decimal(n: u128) -> (r: String)
    ensures
        r@ == decimal_text(n as nat),
    decreases n,
{
    if n < 10 {
        digit_text(n).to_owned()
    } else {
        let mut r = decimal(n / 10);
        r.append(digit_text(n % 10));
        assert(r@ == decimal_text((n / 10) as nat).push(digit((n % 10) as int)));
        r
    }
}

/// `a` followed by `b`.
pub fn joined(a: &str, b: &str) -> (r: String)
    ensures
        r@ == a@ + b@,
{
    let mut r = a.to_owned();
    r.append(b);
    r
}

/// `a`, `b` and `c`, one after the other.
pub fn joined3(a: &str, b: &str, c: &str) -> (r: String)
    ensures
        r@ == a@ + b@ + c@,
{
    let mut r = a.to_owned();
    r.append(b);
    r.append(c);
    r
}

/// How `{:?}` of std prints a text: in double quotes, with escapes.
pub uninterp spec fn debug_text(s: Seq<char>) -> Seq<char>;

/// The `Debug` formatting of a text (`format!("{:?}", ..)` of std). The
/// contract claims that the output depends on the text alone; which
/// characters are escaped, and how, is left unsaid.
#[verifier::external_body]
pub(crate) fn quoted(s: &str) -> (r: String)
    ensures
        r@ == debug_text(s@),
{
    format!("{:?}", s)
}

/// `std::str::from_utf8`. The contract claims that exactly the valid UTF-8 is
/// accepted, and read as the text it encodes.
#[verifier::external_body]
pub(crate) fn utf8(bytes: &[u8]) -> (r: Option<&str>)
    ensures
        match r {
            Some(s) => valid_utf8(bytes@) && s@ == decode_utf8(bytes@),
            None => !valid_utf8(bytes@),
        },
{
    std::str::from_utf8(bytes).ok()
}

/// Strings are ordered by their characters, the first difference deciding; a
/// proper prefix comes first.
pub open spec fn comes_before(a: Seq<char>, b: Seq<char>) -> bool
    decreases a.len(),
{
    if b.len() == 0 {
        false
    } else if a.len() == 0 {
        true
    } else if a[0] == b[0] {
        comes_before(a.drop_first(), b.drop_first())
    } else {
        a[0] < b[0]
    }
}

/// Whether `a` is ordered before `b`.
pub fn precedes(a: &str, b: &str) -> (r: bool)
    ensures
        r == comes_before(a@, b@),
{
    let x = chars_of(a);
    let y = chars_of(b);
    let mut i: usize = 0;
    assert(x@.skip(0) == x@);
    assert(y@.skip(0) == y@);
    while i < x.len() && i < y.len()
        invariant
            i <= x.len(),
            i <= y.len(),
            x@ == a@,
            y@ == b@,
            comes_before(x@, y@) == comes_before(x@.skip(i as int), y@.skip(i as int)),
        decreases x.len() - i,
    {
        if x[i] != y[i] {
            return x[i] < y[i];
        }
        assert(x@.skip(i as int).drop_first() == x@.skip(i + 1));
        assert(y@.skip(i as int).drop_first() == y@.skip(i + 1));
        i += 1;
    }
    i < y.len()
}

/// No text comes before itself.
pub proof fn order_irreflexive(a: Seq<char>)
    ensures
        !comes_before(a, a),
    decreases a.len(),
{
    if a.len() > 0 {
        order_irreflexive(a.drop_first());
    }
}

/// The order is transitive.
pub proof fn order_transitive(a: Seq<char>, b: Seq<char>, c: Seq<char>)
    requires
        comes_before(a, b),
        comes_before(b, c),
    ensures
        comes_before(a, c),
    decreases a.len(),
{
    if a.len() > 0 && a[0] == b[0] && b[0] == c[0] {
        order_transitive(a.drop_first(), b.drop_first(), c.drop_first());
    }
}

/// Of two different texts, one comes before the other.
pub proof fn order_total(a: Seq<char>, b: Seq<char>)
    ensures
        comes_before(a, b) || comes_before(b, a) || a == b,
    decreases a.len(),
{
    if a.len() > 0 && b.len() > 0 {
        if a[0] == b[0] {
            order_total(a.drop_first(), b.drop_first());
            if a.drop_first() == b.drop_first() {
                assert(a == seq![a[0]] + a.drop_first());
                assert(b == seq![b[0]] + b.drop_first());
            }
        }
    } else if a.len() == 0 && b.len() == 0 {
        assert(a == b);
    }
}

/// The texts of a list of strings.
pub open spec fn texts(v: Seq<String>) -> Seq<Seq<char>> {
    v.map_values(|s: String| s@)
}

/// A copy of a list of strings.
pub fn copy_texts(v: &Vec<String>) -> (r: Vec<String>)
    ensures
        texts(r@) == texts(v@),
        r@.len() == v@.len(),
{
    let mut r: Vec<String> = Vec::new();
    for i in 0..v.len()
        invariant
            r@.len() == i,
            forall|j: int| 0 <= j < i ==> r@[j] == v@[j],
    {
        r.push(v[i].clone());
    }
    assert(texts(r@) == texts(v@));
    r
}

/// However many slashes are put behind a text that ends with none, taking them
/// off gives the text back.
pub proof fn end_slashes_come_off(s: Seq<char>, n: nat)
    requires
        s.len() > 0 ==> s.last() != '/',
    ensures
        without_end_slashes(s + Seq::new(n, |i: int| '/')) == s,
    decreases n,
{
    let longer = s + Seq::new(n, |i: int| '/');
    if n > 0 {
        assert(longer.last() == '/');
        assert(longer.drop_last() == s + Seq::new((n - 1) as nat, |i: int| '/'));
        end_slashes_come_off(s, (n - 1) as nat);
    } else {
        assert(longer == s);
    }
}

/// Whether a text is another with any number of slashes behind it.
pub open spec fn differs_in_end_slashes(s: Seq<char>, bare: Seq<char>) -> bool {
    &&& bare.len() <= s.len()
    &&& forall|i: int| 0 <= i < bare.len() ==> #[trigger] s[i] == bare[i]
    &&& forall|i: int| bare.len() <= i < s.len() ==> #[trigger] s[i] == '/'
}

/// Only slashes at the end come off: every text is what is left of it and some
/// slashes, and what is left ends with none.
pub proof fn only_end_slashes_come_off(s: Seq<char>)
    ensures
        without_end_slashes(s).len() <= s.len(),
        s == without_end_slashes(s) + Seq::new(
            (s.len() - without_end_slashes(s).len()) as nat,
            |i: int| '/',
        ),
        differs_in_end_slashes(s, without_end_slashes(s)),
        without_end_slashes(s).len() > 0 ==> without_end_slashes(s).last() != '/',
    decreases s.len(),
{
    let left = without_end_slashes(s);
    if s.len() > 0 && s.last() == '/' {
        only_end_slashes_come_off(s.drop_last());
        let shorter = left + Seq::new((s.len() - 1 - left.len()) as nat, |i: int| '/');
        assert(s == shorter.push('/'));
        assert(s == left + Seq::new((s.len() - left.len()) as nat, |i: int| '/'));
    } else {
        assert(s == left + Seq::new(0, |i: int| '/'));
    }
}

/// White space around a text that has none at its ends comes off, all of it
/// and nothing else.
pub proof fn white_space_comes_off(front: Seq<char>, core: Seq<char>, back: Seq<char>)
    requires
        forall|i: int| 0 <= i < front.len() ==> is_white_space(#[trigger] front[i]),
        forall|i: int| 0 <= i < back.len() ==> is_white_space(#[trigger] back[i]),
        core.len() > 0 ==> !is_white_space(core[0]) && !is_white_space(core.last()),
    ensures
        trimmed(front + core + back) == core,
    decreases front.len() + back.len(),
{
    let all = front + core + back;
    if front.len() > 0 {
        assert(all[0] == front[0]);
        assert(all.drop_first() == front.drop_first() + core + back);
        white_space_comes_off(front.drop_first(), core, back);
    } else if core.len() > 0 {
        assert(all[0] == core[0]);
        back_comes_off(core, back);
        assert(all == core + back);
    } else if back.len() > 0 {
        assert(all[0] == back[0]);
        assert(all.drop_first() == front + core + back.drop_first());
        white_space_comes_off(front, core, back.drop_first());
    } else {
        assert(all == core);
    }
}

proof fn back_comes_off(core: Seq<char>, back: Seq<char>)
    requires
        core.len() > 0,
        !is_white_space(core.last()),
        forall|i: int| 0 <= i < back.len() ==> is_white_space(#[trigger] back[i]),
    ensures
        trimmed_end(core + back) == core,
    decreases back.len(),
{
    if back.len() > 0 {
        assert((core + back).last() == back[back.len() - 1]);
        assert((core + back).drop_last() == core + back.drop_last());
        back_comes_off(core, back.drop_last());
    } else {
        assert(core + back == core);
    }
}

/// White space is what Unicode has as such: tab to carriage return, the space,
/// and the spaces and line breaks beyond ASCII.
pub proof fn white_space_is_that_of_unicode(c: char)
    ensures
        is_white_space(c) <==> (9 <= c as int <= 13 || c as int == 32 || c as int == 133 || c as int
            == 160 || c as int == 5760 || 8192 <= c as int <= 8202 || 8232 <= c as int <= 8233
            || c as int == 8239 || c as int == 8287 || c as int == 12288),
{
}

/// A text begins with what it was put together from.
pub proof fn prefixes_are_in_front(s: Seq<char>, prefix: Seq<char>)
    ensures
        has_prefix(s, prefix) <==> exists|rest: Seq<char>| s == #[trigger] (prefix + rest),
{
    if has_prefix(s, prefix) {
        assert(s == prefix + s.skip(prefix.len() as int));
    }
    if exists|rest: Seq<char>| s == #[trigger] (prefix + rest) {
        let rest = choose|rest: Seq<char>| s == #[trigger] (prefix + rest);
        assert(s.take(prefix.len() as int) == prefix);
    }
}

/// The number that a row of decimal digits stands for.
pub open spec fn decimal_value(s: Seq<char>) -> int
    decreases s.len(),
{
    if s.len() == 0 {
        0
    } else {
        10 * decimal_value(s.drop_last()) + (s.last() as int - '0' as int)
    }
}

/// The decimal text of a number stands for that number, and has no leading
/// zero but that of zero itself.
pub proof fn decimal_text_stands_for_its_number(n: nat)
    ensures
        decimal_value(decimal_text(n)) == n,
        forall|i: int|
            0 <= i < decimal_text(n).len() ==> '0' <= #[trigger] decimal_text(n)[i] <= '9',
        decimal_text(n).len() > 0,
        decimal_text(n)[0] == '0' ==> n == 0,
    decreases n,
{
    let s = decimal_text(n);
    reveal_with_fuel(decimal_value, 2);
    if n >= 10 {
        decimal_text_stands_for_its_number(n / 10);
        assert(s.drop_last() == decimal_text(n / 10));
        assert(s.last() == digit((n % 10) as int));
        assert(s[0] == decimal_text(n / 10)[0]);
    } else {
        assert(s.drop_last() == Seq::<char>::empty());
    }
}

/// Texts are ordered by the first character in which they differ, and the
/// beginning of a text comes before the text.
pub proof fn first_difference_decides(same: Seq<char>, a: Seq<char>, b: Seq<char>)
    requires
        a.len() > 0 && b.len() > 0 ==> a[0] != b[0],
    ensures
        comes_before(same + a, same + b) <==> b.len() > 0 && (a.len() == 0 || a[0] < b[0]),
    decreases same.len(),
{
    let (x, y) = (same + a, same + b);
    if same.len() > 0 {
        assert(x.drop_first() == same.drop_first() + a);
        assert(y.drop_first() == same.drop_first() + b);
        first_difference_decides(same.drop_first(), a, b);
    } else {
        assert(x == a && y == b);
    }
}

/// A text with a character that is no white space is not all taken off.
pub proof fn something_stays(s: Seq<char>)
    requires
        exists|i: int| 0 <= i < s.len() && !is_white_space(#[trigger] s[i]),
    ensures
        trimmed(s).len() > 0,
    decreases s.len(),
{
    let i = choose|i: int| 0 <= i < s.len() && !is_white_space(#[trigger] s[i]);
    if is_white_space(s[0]) {
        let rest = s.drop_first();
        assert(rest[i - 1] == s[i]);
        something_stays(rest);
    } else {
        front_stays(s);
    }
}

proof fn front_stays(s: Seq<char>)
    requires
        s.len() > 0,
        !is_white_space(s[0]),
    ensures
        trimmed_end(s).len() > 0,
    decreases s.len(),
{
    if is_white_space(s.last()) {
        assert(s.len() > 1);
        assert(s.drop_last()[0] == s[0]);
        front_stays(s.drop_last());
    }
}

} // verus!
