//! Text building and matching on `str` and `String`.

use vstd::prelude::*;
use vstd::string::*;
use vstd::utf8::*;

verus! {

/// `String::push`: appends one character to the end of the string.
pub assume_specification[ String::push ](s: &mut String, c: char)
    ensures
        final(s)@ == old(s)@.push(c),
;

/// The character of a decimal digit.
pub open spec fn digit(d: nat) -> char {
    ('0' as nat + d) as char
}

/// A number in decimal, without leading zeros.
pub open spec fn decimal(n: nat) -> Seq<char>
    decreases n,
{
    if n < 10 {
        seq![digit(n)]
    } else {
        decimal(n / 10).push(digit(n % 10))
    }
}

/// A number in decimal, with a leading zero where it has one digit only.
pub open spec fn decimal_padded(n: nat) -> Seq<char> {
    if n < 10 {
        seq!['0'] + decimal(n)
    } else {
        decimal(n)
    }
}

/// A signed number in decimal.
pub open spec fn signed_decimal(n: int) -> Seq<char> {
    if n < 0 {
        seq!['-'] + decimal((-n) as nat)
    } else {
        decimal(n as nat)
    }
}

/// The character of a decimal digit.
fn digit_char(d: u64) -> (c: char)
    requires
        d < 10,
    ensures
        c == digit(d as nat),
{
    (48u8 + d as u8) as char
}

/// Appends `n` in decimal to `out`.
pub fn push_decimal(out: &mut String, n: u64)
    ensures
        final(out)@ == old(out)@ + decimal(n as nat),
    decreases n,
{
    if n >= 10 {
        push_decimal(out, n / 10);
    }
    out.push(digit_char(n % 10));
}

/// Appends `n` in decimal to `out`, with at least two digits.
pub fn push_decimal_padded(out: &mut String, n: u64)
    ensures
        final(out)@ == old(out)@ + decimal_padded(n as nat),
{
    if n < 10 {
        out.push('0');
    }
    push_decimal(out, n);
}

/// Appends the signed number `n` in decimal to `out`.
pub fn push_signed_decimal(out: &mut String, n: i64)
    ensures
        final(out)@ == old(out)@ + signed_decimal(n as int),
{
    if n < 0 {
        out.push('-');
        push_decimal(out, (-(n as i128)) as u64);
    } else {
        push_decimal(out, n as u64);
    }
}

/// Every character of a decimal is a digit.
pub proof fn decimal_has_digits(n: nat, i: int)
    requires
        0 <= i < decimal(n).len(),
    ensures
        '0' <= decimal(n)[i] <= '9',
    decreases n,
{
    if n >= 10 && i < decimal(n / 10).len() {
        decimal_has_digits(n / 10, i);
    }
}

/// Two decimals are the same text only for the same number.
pub proof fn decimal_injective(a: nat, b: nat)
    requires
        decimal(a) == decimal(b),
    ensures
        a == b,
    decreases a,
{
    decimal_len(a);
    decimal_len(b);
    if a < 10 || b < 10 {
        assert(decimal(a)[0] == digit(a));
        assert(decimal(b)[0] == digit(b));
        digit_injective(a, b);
    } else {
        assert(decimal(a).drop_last() =~= decimal(a / 10));
        assert(decimal(b).drop_last() =~= decimal(b / 10));
        decimal_injective(a / 10, b / 10);
        assert(decimal(a).last() == digit(a % 10));
        assert(decimal(b).last() == digit(b % 10));
        digit_injective(a % 10, b % 10);
    }
}

/// Two digits are the same character only for the same number.
proof fn digit_injective(a: nat, b: nat)
    requires
        a < 10,
        b < 10,
        digit(a) == digit(b),
    ensures
        a == b,
{
    assert(digit(a) as nat == 48 + a);
    assert(digit(b) as nat == 48 + b);
}

/// Numbers of one digit, and no others, have a decimal of one character.
proof fn decimal_len(n: nat)
    ensures
        decimal(n).len() >= 1,
        decimal(n).len() == 1 <==> n < 10,
    decreases n,
{
    if n >= 10 {
        decimal_len(n / 10);
    }
}

/// The view of an optional text.
pub open spec fn text_view(text: Option<&str>) -> Option<Seq<char>> {
    match text {
        Some(t) => Some(t@),
        None => None,
    }
}

/// The texts that some strings hold.
pub open spec fn texts(strings: Seq<String>) -> Seq<Seq<char>> {
    strings.map_values(|s: String| s@)
}

/// The characters of a text.
pub fn chars_of(s: &str) -> (chars: Vec<char>)
    ensures
        chars@ == s@,
{
    let mut chars: Vec<char> = Vec::new();
    for c in it: s.chars()
        invariant
            it.seq() == s@,
            chars@ == s@.take(it.index()),
    {
        chars.push(c);
    }
    chars
}

/// Whether two texts are the same.
pub fn same_text(a: &str, b: &str) -> (same: bool)
    ensures
        same == (a@ == b@),
{
    a.to_owned() == b.to_owned()
}

/// `needle` stands in `hay` at position `at`.
pub open spec fn occurs_at(hay: Seq<char>, needle: Seq<char>, at: int) -> bool {
    0 <= at && at + needle.len() <= hay.len() && hay.subrange(at, at + needle.len()) == needle
}

/// `needle` stands somewhere in `hay`.
pub open spec fn contains(hay: Seq<char>, needle: Seq<char>) -> bool {
    exists|at: int| #[trigger] occurs_at(hay, needle, at)
}

/// Whether `needle` stands in `hay` at position `at`.
fn occurs(hay: &Vec<char>, needle: &Vec<char>, at: usize) -> (found: bool)
    requires
        at + needle@.len() <= hay@.len(),
    ensures
        found == occurs_at(hay@, needle@, at as int),
{
    let mut i: usize = 0;
    let len: usize = needle.len();
    let room: usize = hay.len();
    while i < len
        invariant
            i <= len,
            len == needle@.len(),
            room == hay@.len(),
            at + len <= room,
            forall|j: int| 0 <= j < i ==> hay@[at + j] == needle@[j],
        decreases len - i,
    {
        if hay[at + i] != needle[i] {
            assert(hay@.subrange(at as int, at + needle@.len())[i as int] != needle@[i as int]);
            return false;
        }
        i = i + 1;
    }
    assert(hay@.subrange(at as int, at + needle@.len()) =~= needle@);
    true
}

/// Whether `needle` stands somewhere in `hay`.
pub fn contains_text(hay: &str, needle: &str) -> (found: bool)
    ensures
        found == contains(hay@, needle@),
{
    let text: Vec<char> = chars_of(hay);
    let wanted: Vec<char> = chars_of(needle);
    if wanted.len() > text.len() {
        return false;
    }
    let last: usize = text.len() - wanted.len();
    for at in 0..last
        invariant
            text@ == hay@,
            wanted@ == needle@,
            last + wanted@.len() == text@.len(),
            forall|j: int| 0 <= j < at ==> !occurs_at(hay@, needle@, j),
    {
        if occurs(&text, &wanted, at) {
            return true;
        }
    }
    occurs(&text, &wanted, last)
}

/// The text behind `prefix`, where `s` starts with it.
pub fn strip_prefix<'a>(s: &'a str, prefix: &str) -> (rest: Option<&'a str>)
    ensures
        rest is Some == prefix@.is_prefix_of(s@),
        rest matches Some(r) ==> r@ == s@.skip(prefix@.len() as int),
{
    let chars: Vec<char> = chars_of(s);
    let head: Vec<char> = chars_of(prefix);
    if head.len() > chars.len() {
        return None;
    }
    if occurs(&chars, &head, 0) {
        assert(s@.subrange(0, prefix@.len() as int) == prefix@);
        Some(s.substring_char(head.len(), chars.len()))
    } else {
        assert(!prefix@.is_prefix_of(s@));
        None
    }
}

/// The characters with the Unicode property `White_Space`.
pub open spec fn white_space(c: char) -> bool {
    ||| 0x09 <= c as u32 <= 0x0d
    ||| c as u32 == 0x20
    ||| c as u32 == 0x85
    ||| c as u32 == 0xa0
    ||| c as u32 == 0x1680
    ||| 0x2000 <= c as u32 <= 0x200a
    ||| c as u32 == 0x2028
    ||| c as u32 == 0x2029
    ||| c as u32 == 0x202f
    ||| c as u32 == 0x205f
    ||| c as u32 == 0x3000
}

/// Nothing but white space.
pub open spec fn blank(s: Seq<char>) -> bool {
    forall|i: int| 0 <= i < s.len() ==> white_space(#[trigger] s[i])
}

/// Whether a text has nothing but white space.
pub fn is_blank(s: &str) -> (empty: bool)
    ensures
        empty == blank(s@),
{
    let chars: Vec<char> = chars_of(s);
    let mut i: usize = 0;
    while i < chars.len()
        invariant
            i <= chars@.len(),
            chars@ == s@,
            forall|j: int| 0 <= j < i ==> white_space(#[trigger] s@[j]),
        decreases chars@.len() - i,
    {
        let c: u32 = chars[i] as u32;
        let white: bool = (0x09 <= c && c <= 0x0d) || c == 0x20 || c == 0x85 || c == 0xa0 || c
            == 0x1680 || (0x2000 <= c && c <= 0x200a) || c == 0x2028 || c == 0x2029 || c == 0x202f
            || c == 0x205f || c == 0x3000;
        if !white {
            assert(!white_space(s@[i as int]));
            return false;
        }
        i = i + 1;
    }
    true
}

/// A text without the slashes at its end.
pub open spec fn without_end_slashes(s: Seq<char>) -> Seq<char>
    decreases s.len(),
{
    if s.len() > 0 && s.last() == '/' {
        without_end_slashes(s.drop_last())
    } else {
        s
    }
}

/// Cuts the slashes off the end of a text.
pub fn trim_end_slashes<'a>(s: &'a str) -> (cut: &'a str)
    ensures
        cut@ == without_end_slashes(s@),
{
    let chars: Vec<char> = chars_of(s);
    let mut end: usize = chars.len();
    assert(s@.take(end as int) =~= s@);
    while end > 0 && chars[end - 1] == '/'
        invariant
            end <= chars@.len(),
            chars@ == s@,
            without_end_slashes(s@) == without_end_slashes(s@.take(end as int)),
        decreases end,
    {
        assert(s@.take(end as int).drop_last() =~= s@.take(end - 1));
        end = end - 1;
    }
    s.substring_char(0, end)
}

/// `n` spaces.
pub open spec fn spaces(n: nat) -> Seq<char> {
    Seq::new(n, |i: int| ' ')
}

/// A text filled up with spaces on its right to `width` characters.
pub open spec fn padded(s: Seq<char>, width: nat) -> Seq<char> {
    if s.len() < width {
        s + spaces((width - s.len()) as nat)
    } else {
        s
    }
}

/// Appends a text, filled up with spaces to `width` characters.
pub fn push_padded(out: &mut String, s: &str, width: usize)
    ensures
        final(out)@ == old(out)@ + padded(s@, width as nat),
{
    let ghost before = out@;
    out.append(s);
    let len: usize = s.unicode_len();
    let mut filled: usize = len;
    while filled < width
        invariant
            len == s@.len(),
            len <= filled,
            filled <= width || filled == len,
            out@ == before + s@ + spaces((filled - len) as nat),
        decreases width - filled,
    {
        out.push(' ');
        filled = filled + 1;
        assert(spaces((filled - len) as nat) =~= spaces((filled - 1 - len) as nat).push(' '));
    }
    assert(out@ =~= before + padded(s@, width as nat));
}

/// The bytes of a text of two parts are those of the first, then those of the second.
pub proof fn encode_concat(a: Seq<char>, b: Seq<char>)
    ensures
        encode_utf8(a + b) == encode_utf8(a) + encode_utf8(b),
    decreases a.len(),
{
    if a.len() == 0 {
        assert(a + b =~= b);
        assert(encode_utf8(a) =~= Seq::<u8>::empty());
        assert(encode_utf8(a) + encode_utf8(b) =~= encode_utf8(b));
    } else {
        assert((a + b).drop_first() =~= a.drop_first() + b);
        encode_concat(a.drop_first(), b);
        assert((a + b)[0] == a[0]);
        let first = encode_scalar(a[0] as u32);
        assert(encode_utf8(a + b) =~= first + encode_utf8(a.drop_first() + b));
        assert(first + (encode_utf8(a.drop_first()) + encode_utf8(b)) =~= first + encode_utf8(
            a.drop_first(),
        ) + encode_utf8(b));
    }
}

/// A slash among the bytes of a text is a slash of the text.
pub proof fn slash_of_text(s: Seq<char>)
    requires
        encode_utf8(s).contains(47u8),
    ensures
        s.contains('/'),
{
    ascii_of_text(s, 47u8);
}

/// The number that some digits stand for.
pub open spec fn read_number(digits: Seq<char>) -> int
    decreases digits.len(),
{
    if digits.len() == 0 {
        0
    } else {
        10 * read_number(digits.drop_last()) + (digits.last() as int - '0' as int)
    }
}

/// A number can be read back from its decimal, which is made of digits and has no leading zero.
pub proof fn decimal_reads_back(n: nat)
    ensures
        read_number(decimal(n)) == n,
        decimal(n).len() > 0,
        forall|i: int| 0 <= i < decimal(n).len() ==> '0' <= #[trigger] decimal(n)[i] <= '9',
        n > 0 ==> decimal(n)[0] != '0',
    decreases n,
{
    assert forall|i: int| 0 <= i < decimal(n).len() implies '0' <= #[trigger] decimal(n)[i]
        <= '9' by {
        decimal_has_digits(n, i);
    }
    let d = decimal(n);
    if n < 10 {
        assert(d.drop_last() =~= Seq::empty());
        assert(read_number(d.drop_last()) == 0);
        assert(d.last() as int == 48 + n);
    } else {
        decimal_reads_back(n / 10);
        assert(d.drop_last() =~= decimal(n / 10));
        assert(d.last() as int == 48 + n % 10);
        assert(d[0] == decimal(n / 10)[0]);
    }
}

/// A padded decimal reads back too, and has two digits at the least and no zero that is not needed.
pub proof fn padded_reads_back(n: nat)
    ensures
        read_number(decimal_padded(n)) == n,
        decimal_padded(n).len() >= 2,
        decimal_padded(n).len() > 2 ==> decimal_padded(n)[0] != '0',
{
    decimal_reads_back(n);
    decimal_len(n);
    let d = decimal_padded(n);
    if n < 10 {
        assert(d =~= seq!['0', digit(n)]);
        assert(d.drop_last() =~= seq!['0']);
        assert(seq!['0'].drop_last() =~= Seq::empty());
        assert(read_number(seq!['0'].drop_last()) == 0);
        assert(read_number(seq!['0']) == 0);
        assert(d.last() as int == 48 + n);
    }
}

/// A signed decimal reads back: behind a sign where the number is negative.
pub proof fn signed_reads_back(n: int)
    ensures
        n >= 0 ==> read_number(signed_decimal(n)) == n && signed_decimal(n)[0] != '-',
        n < 0 ==> signed_decimal(n)[0] == '-' && read_number(signed_decimal(n).skip(1)) == -n,
{
    if n < 0 {
        decimal_reads_back((-n) as nat);
        assert(signed_decimal(n).skip(1) =~= decimal((-n) as nat));
    } else {
        decimal_reads_back(n as nat);
        assert('0' <= decimal(n as nat)[0]);
    }
}

/// A text stands in another one where that is some text, the first one, and some text again.
pub proof fn contained_between(hay: Seq<char>, needle: Seq<char>)
    ensures
        contains(hay, needle) <==> exists|a: Seq<char>, b: Seq<char>| hay == #[trigger] (a + needle
            + b),
{
    if contains(hay, needle) {
        let at = choose|at: int| #[trigger] occurs_at(hay, needle, at);
        let a = hay.take(at);
        let b = hay.skip(at + needle.len());
        assert(hay =~= a + needle + b);
    }
    if exists|a: Seq<char>, b: Seq<char>| hay == #[trigger] (a + needle + b) {
        let (a, b) = choose|a: Seq<char>, b: Seq<char>| hay == #[trigger] (a + needle + b);
        assert(hay.subrange(a.len() as int, (a.len() + needle.len()) as int) =~= needle);
        assert(occurs_at(hay, needle, a.len() as int));
    }
}

/// A text is contained wherever it was put in.
pub proof fn contains_what_was_put_in(a: Seq<char>, needle: Seq<char>, b: Seq<char>)
    ensures
        contains(a + needle + b, needle),
{
    contained_between(a + needle + b, needle);
}

/// A text of two parts is blank where both are; nothing at all is blank, and so are spaces, tabs and
/// line breaks; no visible ASCII character is.
pub proof fn blank_by_parts(a: Seq<char>, b: Seq<char>, c: char)
    ensures
        blank(a + b) <==> blank(a) && blank(b),
        blank(Seq::empty()),
        c == ' ' || c == '\t' || c == '\n' || c == '\r' ==> blank(seq![c]),
        '!' <= c <= '~' ==> !blank(seq![c]),
{
    let ab = a + b;
    assert forall|i: int| 0 <= i < a.len() implies ab[i] == #[trigger] a[i] by {}
    assert forall|i: int| 0 <= i < b.len() implies ab[a.len() + i] == #[trigger] b[i] by {}
    if blank(ab) {
        assert forall|i: int| 0 <= i < a.len() implies white_space(#[trigger] a[i]) by {
            assert(white_space(ab[i]));
        }
        assert forall|i: int| 0 <= i < b.len() implies white_space(#[trigger] b[i]) by {
            assert(white_space(ab[a.len() + i]));
        }
    }
    if '!' <= c <= '~' {
        assert(!white_space(seq![c][0]));
    }
}

/// Cutting the slashes off the end takes slashes and nothing else, and leaves none.
pub proof fn cut_slashes(s: Seq<char>)
    ensures
        without_end_slashes(s).is_prefix_of(s),
        forall|i: int| without_end_slashes(s).len() <= i < s.len() ==> #[trigger] s[i] == '/',
        without_end_slashes(s).len() > 0 ==> without_end_slashes(s).last() != '/',
    decreases s.len(),
{
    if s.len() > 0 && s.last() == '/' {
        cut_slashes(s.drop_last());
        let r = without_end_slashes(s);
        assert(r =~= s.subrange(0, r.len() as int));
        assert forall|i: int| r.len() <= i < s.len() implies #[trigger] s[i] == '/' by {
            if i < s.len() - 1 {
                assert(s.drop_last()[i] == s[i]);
            }
        }
    } else {
        assert(s =~= s.subrange(0, s.len() as int));
    }
}

/// Filling a text up keeps it in front, puts nothing but spaces behind it, and makes it as long as the
/// column and no longer.
pub proof fn padding_fills(s: Seq<char>, width: nat)
    ensures
        s.is_prefix_of(padded(s, width)),
        padded(s, width).len() == if s.len() < width {
            width
        } else {
            s.len()
        },
        forall|i: int| s.len() <= i < padded(s, width).len() ==> #[trigger] padded(s, width)[i] == ' ',
{
    assert(s =~= padded(s, width).subrange(0, s.len() as int));
}

/// The texts of some strings are theirs, one by one.
pub proof fn texts_one_by_one(strings: Seq<String>)
    ensures
        texts(strings).len() == strings.len(),
        forall|i: int| 0 <= i < strings.len() ==> #[trigger] texts(strings)[i] == strings[i]@,
{
}

/// An ASCII byte among the bytes of a text is a character of the text.
pub proof fn ascii_of_text(s: Seq<char>, b: u8)
    requires
        b < 128,
        encode_utf8(s).contains(b),
    ensures
        s.contains(b as char),
{
    let bytes = encode_utf8(s);
    let at = choose|i: int| 0 <= i < bytes.len() && bytes[i] == b;
    encode_utf8_valid_utf8(s);
    encode_utf8_decode_utf8(s);
    is_char_boundary_iff_not_is_continuation_byte(bytes, at);
    valid_utf8_split(bytes, at);
    decode_utf8_split(bytes, at);
    let rest = bytes.subrange(at, bytes.len() as int);
    assert(rest[0] == b);
    assert(b & 0x7f == b) by (bit_vector)
        requires
            b < 128,
    ;
    assert(decode_utf8(rest)[0] == b as char);
    assert(s[decode_utf8(bytes.subrange(0, at)).len() as int] == b as char);
}

/// A text of one character is blank exactly where it is one of the white space characters of Unicode:
/// those of ASCII, the next-line and no-break spaces, the Ogham mark, the spaces of general
/// punctuation, the line and paragraph separators, and the ideographic space.
pub proof fn white_space_characters(c: char)
    ensures
        blank(seq![c]) <==> seq![
            '\t',
            '\n',
            '\u{b}',
            '\u{c}',
            '\r',
            ' ',
            '\u{85}',
            '\u{a0}',
            '\u{1680}',
            '\u{2000}',
            '\u{2001}',
            '\u{2002}',
            '\u{2003}',
            '\u{2004}',
            '\u{2005}',
            '\u{2006}',
            '\u{2007}',
            '\u{2008}',
            '\u{2009}',
            '\u{200a}',
            '\u{2028}',
            '\u{2029}',
            '\u{202f}',
            '\u{205f}',
            '\u{3000}',
        ].contains(c),
{
    let all = seq![
        '\t',
        '\n',
        '\u{b}',
        '\u{c}',
        '\r',
        ' ',
        '\u{85}',
        '\u{a0}',
        '\u{1680}',
        '\u{2000}',
        '\u{2001}',
        '\u{2002}',
        '\u{2003}',
        '\u{2004}',
        '\u{2005}',
        '\u{2006}',
        '\u{2007}',
        '\u{2008}',
        '\u{2009}',
        '\u{200a}',
        '\u{2028}',
        '\u{2029}',
        '\u{202f}',
        '\u{205f}',
        '\u{3000}',
    ];
    assert(seq![c][0] == c);
    assert(blank(seq![c]) == white_space(c));
    if white_space(c) {
        let n = c as u32;
        let at: int = if n <= 0xd {
            n - 9
        } else if n == 0x20 {
            5
        } else if n == 0x85 {
            6
        } else if n == 0xa0 {
            7
        } else if n == 0x1680 {
            8
        } else if n <= 0x200a {
            9 + (n - 0x2000)
        } else if n == 0x2028 {
            20
        } else if n == 0x2029 {
            21
        } else if n == 0x202f {
            22
        } else if n == 0x205f {
            23
        } else {
            24
        };
        assert(all[at] == c);
    }
}


} // verus!
