//! Character-level text operations and their models over `Seq<char>`.

use vstd::prelude::*;

verus! {

broadcast use vstd::string::group_string_axioms;

/// The Unicode `White_Space` property.
pub open spec fn white(c: char) -> bool {
    let n = c as u32;
    ||| 0x9 <= n <= 0xD
    ||| n == 0x20
    ||| n == 0x85
    ||| n == 0xA0
    ||| n == 0x1680
    ||| 0x2000 <= n <= 0x200A
    ||| n == 0x2028
    ||| n == 0x2029
    ||| n == 0x202F
    ||| n == 0x205F
    ||| n == 0x3000
}

/// `s` without its leading white space.
pub open spec fn trimmed_start(s: Seq<char>) -> Seq<char>
    decreases s.len(),
{
    if s.len() > 0 && white(s.first()) {
        trimmed_start(s.drop_first())
    } else {
        s
    }
}

/// `s` without its trailing white space.
pub open spec fn trimmed_end(s: Seq<char>) -> Seq<char>
    decreases s.len(),
{
    if s.len() > 0 && white(s.last()) {
        trimmed_end(s.drop_last())
    } else {
        s
    }
}

/// `s` without leading and trailing white space.
pub open spec fn trimmed(s: Seq<char>) -> Seq<char> {
    trimmed_end(trimmed_start(s))
}

/// Nothing is left of `s` once it is trimmed.
pub open spec fn blank(s: Seq<char>) -> bool {
    trimmed(s).len() == 0
}

/// `part` occurs somewhere in `s`.
pub open spec fn occurs(s: Seq<char>, part: Seq<char>) -> bool {
    exists|i: int| occurs_at(s, part, i)
}

/// `part` occurs in `s` at position `i`.
pub open spec fn occurs_at(s: Seq<char>, part: Seq<char>, i: int) -> bool {
    &&& 0 <= i
    &&& i + part.len() <= s.len()
    &&& s.subrange(i, i + part.len()) == part
}

/// The text of an optional string.
pub open spec fn opt_text(value: Option<String>) -> Option<Seq<char>> {
    match value {
        Some(text) => Some(text@),
        None => None,
    }
}

/// The text of an optional string slice.
pub open spec fn opt_str(value: Option<&str>) -> Option<Seq<char>> {
    match value {
        Some(text) => Some(text@),
        None => None,
    }
}

/// The character that writes the digit `d`, with `a` to `f` for ten to fifteen.
pub open spec fn digit(d: int) -> char {
    if d < 10 {
        (0x30 + d) as char
    } else {
        (0x57 + d) as char
    }
}

/// `n` in decimal, without leading zeros.
pub open spec fn decimal(n: nat) -> Seq<char>
    decreases n,
{
    if n < 10 {
        seq![digit(n as int)]
    } else {
        decimal(n / 10).push(digit((n % 10) as int))
    }
}

/// The `width` low-order hexadecimal digits of `n`.
pub open spec fn hex(n: nat, width: nat) -> Seq<char>
    decreases width,
{
    if width == 0 {
        seq![]
    } else {
        hex(n / 16, (width - 1) as nat).push(digit((n % 16) as int))
    }
}

/// `parts` in order, with `separator` between neighbours.
pub open spec fn joined(parts: Seq<Seq<char>>, separator: Seq<char>) -> Seq<char>
    decreases parts.len(),
{
    if parts.len() == 0 {
        seq![]
    } else if parts.len() == 1 {
        parts[0]
    } else {
        joined(parts.drop_last(), separator) + separator + parts.last()
    }
}

/// The texts of a list of strings.
pub open spec fn texts(list: Seq<String>) -> Seq<Seq<char>> {
    list.map_values(|text: String| text@)
}

/// The characters of `s`, in order.
pub fn chars_of(s: &str) -> (r: Vec<char>)
    ensures
        r@ == s@,
{
    let mut out: Vec<char> = Vec::new();
    for c in it: s.chars()
        invariant
            it.seq() == s@,
            out@ == s@.take(it.index() as int),
    {
        out.push(c);
        assert(s@.take(it.index() + 1) =~= s@.take(it.index() as int).push(c));
    }
    assert(s@.take(s@.len() as int) =~= s@);
    out
}

/// Whether two texts are the same.
pub fn same(a: &str, b: &str) -> (r: bool)
    ensures
        r == (a@ == b@),
{
    let x = a.as_bytes();
    let y = b.as_bytes();
    proof {
        vstd::utf8::encode_utf8_decode_utf8(a@);
        vstd::utf8::encode_utf8_decode_utf8(b@);
    }
    if x.len() != y.len() {
        return false;
    }
    let mut i: usize = 0;
    while i < x.len()
        invariant
            i <= x@.len(),
            x@.len() == y@.len(),
            x@ == vstd::utf8::encode_utf8(a@),
            y@ == vstd::utf8::encode_utf8(b@),
            forall|j: int| 0 <= j < i ==> x@[j] == y@[j],
        decreases x@.len() - i,
    {
        if x[i] != y[i] {
            return false;
        }
        i += 1;
    }
    assert(x@ =~= y@);
    true
}

/// The executable form of [`white`].
pub fn is_white(c: char) -> (r: bool)
    ensures
        r == white(c),
{
    let n: u32 = c as u32;
    (0x9 <= n && n <= 0xD) || n == 0x20 || n == 0x85 || n == 0xA0 || n == 0x1680 || (0x2000 <= n
        && n <= 0x200A) || n == 0x2028 || n == 0x2029 || n == 0x202F || n == 0x205F || n == 0x3000
}

/// The white space that `s` starts with does not survive trimming, position by position.
proof fn lemma_trimmed_start(s: Seq<char>, k: int)
    requires
        0 <= k <= s.len(),
        forall|i: int| 0 <= i < k ==> white(#[trigger] s[i]),
        k < s.len() ==> !white(s[k]),
    ensures
        trimmed_start(s) == s.subrange(k, s.len() as int),
    decreases k,
{
    if k == 0 {
        assert(s.subrange(0, s.len() as int) =~= s);
    } else {
        let rest = s.drop_first();
        assert(white(s[0]));
        assert forall|i: int| 0 <= i < k - 1 implies white(#[trigger] rest[i]) by {
            assert(rest[i] == s[i + 1]);
        }
        lemma_trimmed_start(rest, k - 1);
        assert(rest.subrange(k - 1, rest.len() as int) =~= s.subrange(k, s.len() as int));
    }
}

/// The white space that `s` ends with does not survive trimming, position by position.
proof fn lemma_trimmed_end(s: Seq<char>, k: int)
    requires
        0 <= k <= s.len(),
        forall|i: int| k <= i < s.len() ==> white(#[trigger] s[i]),
        0 < k ==> !white(s[k - 1]),
    ensures
        trimmed_end(s) == s.subrange(0, k),
    decreases s.len() - k,
{
    if k == s.len() {
        assert(s.subrange(0, k) =~= s);
    } else {
        let rest = s.drop_last();
        assert(white(s[s.len() - 1]));
        lemma_trimmed_end(rest, k);
        assert(rest.subrange(0, k) =~= s.subrange(0, k));
    }
}

/// `s` without leading and trailing white space.
pub fn trim(s: &str) -> (r: &str)
    ensures
        r@ == trimmed(s@),
{
    let chars = chars_of(s);
    let n = chars.len();
    let mut from: usize = 0;
    while from < n && is_white(chars[from])
        invariant
            from <= n,
            n == chars@.len(),
            forall|i: int| 0 <= i < from ==> white(#[trigger] chars@[i]),
        decreases n - from,
    {
        from += 1;
    }
    let mut to: usize = n;
    while to > from && is_white(chars[to - 1])
        invariant
            from <= to <= n,
            n == chars@.len(),
            forall|i: int| to <= i < n ==> white(#[trigger] chars@[i]),
        decreases to,
    {
        to -= 1;
    }
    proof {
        lemma_trimmed_start(s@, from as int);
        let tail = s@.subrange(from as int, n as int);
        assert forall|i: int| to - from <= i < tail.len() implies white(#[trigger] tail[i]) by {
            assert(tail[i] == chars@[i + from]);
        }
        lemma_trimmed_end(tail, to - from);
        assert(tail.subrange(0, to - from) =~= s@.subrange(from as int, to as int));
    }
    s.substring_char(from, to)
}

/// Whether nothing is left of `s` once it is trimmed.
pub fn is_blank(s: &str) -> (r: bool)
    ensures
        r == blank(s@),
{
    trim(s).is_empty()
}

/// Whether `part` occurs in `s` at position `at`.
fn matches_at(s: &Vec<char>, part: &Vec<char>, at: usize) -> (r: bool)
    requires
        at + part@.len() <= s@.len(),
    ensures
        r == occurs_at(s@, part@, at as int),
{
    let n = s.len();
    let mut i: usize = 0;
    while i < part.len()
        invariant
            i <= part@.len(),
            n == s@.len(),
            at + part@.len() <= n,
            forall|j: int| 0 <= j < i ==> s@[at + j] == part@[j],
        decreases part@.len() - i,
    {
        if s[at + i] != part[i] {
            assert(s@.subrange(at as int, at + part@.len())[i as int] == s@[at + i]);
            return false;
        }
        i += 1;
    }
    assert(s@.subrange(at as int, at + part@.len()) =~= part@);
    true
}

/// Whether `part` occurs somewhere in `s`.
pub fn contains(s: &str, part: &str) -> (r: bool)
    ensures
        r == occurs(s@, part@),
{
    let hay = chars_of(s);
    let needle = chars_of(part);
    if needle.len() > hay.len() {
        return false;
    }
    let last = hay.len() - needle.len();
    let mut at: usize = 0;
    loop
        invariant
            hay@ == s@,
            needle@ == part@,
            last == hay@.len() - needle@.len(),
            at <= last,
            forall|i: int| 0 <= i < at ==> !occurs_at(s@, part@, i),
        decreases last - at,
    {
        if matches_at(&hay, &needle, at) {
            return true;
        }
        if at == last {
            assert forall|i: int| !occurs_at(s@, part@, i) by {}
            return false;
        }
        at += 1;
    }
}

/// Whether `s` starts with `part`.
pub fn starts_with(s: &str, part: &str) -> (r: bool)
    ensures
        r == part@.is_prefix_of(s@),
{
    let hay = chars_of(s);
    let needle = chars_of(part);
    needle.len() <= hay.len() && matches_at(&hay, &needle, 0)
}

/// Whether `s` ends with `part`.
pub fn ends_with(s: &str, part: &str) -> (r: bool)
    ensures
        r == part@.is_suffix_of(s@),
{
    let hay = chars_of(s);
    let needle = chars_of(part);
    needle.len() <= hay.len() && matches_at(&hay, &needle, hay.len() - needle.len())
}

/// What follows `part` in a text that starts with it.
pub fn strip_prefix<'a>(s: &'a str, part: &str) -> (r: Option<&'a str>)
    ensures
        match r {
            Some(rest) => s@ == part@ + rest@,
            None => !part@.is_prefix_of(s@),
        },
{
    if starts_with(s, part) {
        let rest = s.substring_char(part.unicode_len(), s.unicode_len());
        assert(s@ =~= part@ + rest@);
        Some(rest)
    } else {
        None
    }
}

/// The text of the digit `d`.
fn digit_text(d: u8) -> (r: &'static str)
    requires
        d < 16,
    ensures
        r@ == seq![digit(d as int)],
{
    proof {
        reveal_strlit("0");
        reveal_strlit("1");
        reveal_strlit("2");
        reveal_strlit("3");
        reveal_strlit("4");
        reveal_strlit("5");
        reveal_strlit("6");
        reveal_strlit("7");
        reveal_strlit("8");
        reveal_strlit("9");
        reveal_strlit("a");
        reveal_strlit("b");
        reveal_strlit("c");
        reveal_strlit("d");
        reveal_strlit("e");
        reveal_strlit("f");
    }
    match d {
        0 => "0",
        1 => "1",
        2 => "2",
        3 => "3",
        4 => "4",
        5 => "5",
        6 => "6",
        7 => "7",
        8 => "8",
        9 => "9",
        10 => "a",
        11 => "b",
        12 => "c",
        13 => "d",
        14 => "e",
        _ => "f",
    }
}

/// Appends `n` in decimal.
pub fn push_decimal(out: &mut String, n: u64)
    ensures
        final(out)@ == old(out)@ + decimal(n as nat),
    decreases n,
{
    if n >= 10 {
        push_decimal(out, n / 10);
    }
    out.append(digit_text((n % 10) as u8));
}

/// Appends the `width` low-order hexadecimal digits of `n`.
pub fn push_hex(out: &mut String, n: u128, width: u8)
    ensures
        final(out)@ == old(out)@ + hex(n as nat, width as nat),
    decreases width,
{
    if width > 0 {
        push_hex(out, n / 16, width - 1);
        out.append(digit_text((n % 16) as u8));
    }
}

/// `n` in decimal, without leading zeros.
pub fn to_decimal(n: u64) -> (r: String)
    ensures
        r@ == decimal(n as nat),
{
    let mut out = String::new();
    push_decimal(&mut out, n);
    out
}

/// `parts` in order, with `separator` between neighbours.
pub fn join(parts: &Vec<String>, separator: &str) -> (r: String)
    ensures
        r@ == joined(texts(parts@), separator@),
{
    let mut out = String::new();
    let mut i: usize = 0;
    let ghost all = texts(parts@);
    assert(all.take(0) =~= seq![]);
    while i < parts.len()
        invariant
            i <= parts@.len(),
            all == texts(parts@),
            out@ == joined(all.take(i as int), separator@),
        decreases parts@.len() - i,
    {
        assert(all.take(i + 1).drop_last() =~= all.take(i as int));
        if i > 0 {
            out.append(separator);
        }
        out.append(parts[i].as_str());
        i += 1;
    }
    assert(all.take(i as int) =~= all);
    out
}

/// A fixed-width hexadecimal rendering has exactly `width` digits, none of them `/` or `\\`
/// or white space.
pub proof fn lemma_hex_shape(n: nat, width: nat)
    ensures
        hex(n, width).len() == width,
        forall|i: int|
            0 <= i < width ==> {
                let c = #[trigger] hex(n, width)[i];
                ('0' <= c && c <= '9') || ('a' <= c && c <= 'f')
            },
    decreases width,
{
    if width > 0 {
        lemma_hex_shape(n / 16, (width - 1) as nat);
    }
}

/// Numbers that fit into `width` hexadecimal digits are told apart by those digits.
pub proof fn lemma_hex_injective(m: nat, n: nat, width: nat)
    requires
        m < vstd::arithmetic::power::pow(16, width),
        n < vstd::arithmetic::power::pow(16, width),
        hex(m, width) == hex(n, width),
    ensures
        m == n,
    decreases width,
{
    reveal(vstd::arithmetic::power::pow);
    if width > 0 {
        let w = (width - 1) as nat;
        assert(vstd::arithmetic::power::pow(16, width) == 16 * vstd::arithmetic::power::pow(16, w));
        lemma_hex_shape(m / 16, w);
        lemma_hex_shape(n / 16, w);
        assert(hex(m, width).drop_last() =~= hex(m / 16, w));
        assert(hex(n, width).drop_last() =~= hex(n / 16, w));
        assert(hex(m, width).last() == digit((m % 16) as int));
        assert(hex(n, width).last() == digit((n % 16) as int));
        lemma_hex_injective(m / 16, n / 16, w);
    }
}

/// How many numbers 8 and 32 hexadecimal digits can tell apart.
pub proof fn lemma_pow16()
    ensures
        vstd::arithmetic::power::pow(16, 8) == 0x1_0000_0000,
        vstd::arithmetic::power::pow(16, 32) == 0x1_0000_0000_0000_0000_0000_0000_0000_0000,
{
    let p4 = vstd::arithmetic::power::pow(16, 4);
    assert(p4 == 0x1_0000) by {
        reveal_with_fuel(vstd::arithmetic::power::pow, 5);
    }
    vstd::arithmetic::power::lemma_pow_adds(16, 4, 4);
    vstd::arithmetic::power::lemma_pow_adds(16, 8, 8);
    vstd::arithmetic::power::lemma_pow_adds(16, 16, 16);
    let p8 = vstd::arithmetic::power::pow(16, 8);
    let p16 = vstd::arithmetic::power::pow(16, 16);
    assert(p8 * p8 == 0x1_0000_0000_0000_0000) by (nonlinear_arith)
        requires
            p8 == 0x1_0000_0000,
    ;
    assert(p16 * p16 == 0x1_0000_0000_0000_0000_0000_0000_0000_0000) by (nonlinear_arith)
        requires
            p16 == 0x1_0000_0000_0000_0000,
    ;
}

/// A copy of an optional string.
pub fn copy_opt(value: &Option<String>) -> (r: Option<String>)
    ensures
        r == *value,
{
    match value {
        Some(text) => Some(text.clone()),
        None => None,
    }
}

/// An owned copy of `s`.
pub fn owned(s: &str) -> (r: String)
    ensures
        r@ == s@,
{
    s.to_owned()
}

/// White space is the tab, the line breaks, the spaces of ASCII, Latin-1 and Ogham, the typographic
/// spaces of every width, and the ideographic space.
pub proof fn law_white_space(c: char)
    ensures
        white(c) <==> {
            ||| c == '\t' || c == '\n' || c == '\u{B}' || c == '\u{C}' || c == '\r' || c == ' '
            ||| c == '\u{85}' || c == '\u{A0}' || c == '\u{1680}'
            ||| c == '\u{2000}' || c == '\u{2001}' || c == '\u{2002}' || c == '\u{2003}'
            ||| c == '\u{2004}' || c == '\u{2005}' || c == '\u{2006}' || c == '\u{2007}'
            ||| c == '\u{2008}' || c == '\u{2009}' || c == '\u{200A}'
            ||| c == '\u{2028}' || c == '\u{2029}' || c == '\u{202F}' || c == '\u{205F}'
            ||| c == '\u{3000}'
        },
{
}

/// `s` is white space and nothing else.
pub open spec fn all_white(s: Seq<char>) -> bool {
    forall|i: int| 0 <= i < s.len() ==> white(#[trigger] s[i])
}

proof fn lemma_start_is_white(s: Seq<char>) -> (k: int)
    ensures
        0 <= k <= s.len(),
        all_white(s.take(k)),
        trimmed_start(s) == s.skip(k),
        k < s.len() ==> !white(s[k]),
    decreases s.len(),
{
    if s.len() > 0 && white(s.first()) {
        let rest = s.drop_first();
        let k = lemma_start_is_white(rest);
        assert(rest.skip(k) =~= s.skip(k + 1));
        assert forall|i: int| 0 <= i < k + 1 implies white(#[trigger] s.take(k + 1)[i]) by {
            if i > 0 {
                assert(rest.take(k)[i - 1] == s[i]);
            }
        }
        k + 1
    } else {
        assert(s.skip(0) =~= s);
        0
    }
}

proof fn lemma_end_is_white(s: Seq<char>) -> (k: int)
    ensures
        0 <= k <= s.len(),
        all_white(s.skip(k)),
        trimmed_end(s) == s.take(k),
        k > 0 ==> !white(s[k - 1]),
    decreases s.len(),
{
    if s.len() > 0 && white(s.last()) {
        let rest = s.drop_last();
        let k = lemma_end_is_white(rest);
        assert(rest.take(k) =~= s.take(k));
        assert forall|i: int| 0 <= i < s.skip(k).len() implies white(#[trigger] s.skip(k)[i]) by {
            if i < rest.skip(k).len() {
                assert(rest.skip(k)[i] == s.skip(k)[i]);
            }
        }
        k
    } else {
        assert(s.take(s.len() as int) =~= s);
        s.len() as int
    }
}

/// Trimming takes white space off both ends, nothing but white space, and all of it.
pub proof fn law_trimming_takes_white_space_off_the_ends(s: Seq<char>)
    ensures
        exists|before: Seq<char>, after: Seq<char>|
            all_white(before) && all_white(after) && s == #[trigger] (before + trimmed(s) + after),
        trimmed(s).len() > 0 ==> !white(trimmed(s).first()) && !white(trimmed(s).last()),
{
    let a = lemma_start_is_white(s);
    let rest = trimmed_start(s);
    let b = lemma_end_is_white(rest);
    let before = s.take(a);
    let after = rest.skip(b);
    assert(s =~= before + trimmed(s) + after);
    if trimmed(s).len() > 0 {
        assert(trimmed(s).first() == s[a]);
        assert(trimmed(s).last() == rest[b - 1]);
    }
}

/// A text is blank just where it is white space and nothing else.
pub proof fn law_blank_is_all_white(s: Seq<char>)
    ensures
        blank(s) <==> all_white(s),
{
    let a = lemma_start_is_white(s);
    let rest = trimmed_start(s);
    let b = lemma_end_is_white(rest);
    if blank(s) {
        assert forall|i: int| 0 <= i < s.len() implies white(#[trigger] s[i]) by {
            if i < a {
                assert(s.take(a)[i] == s[i]);
            } else {
                assert(rest.skip(b)[i - a] == s[i]);
            }
        }
    }
    if all_white(s) && !blank(s) {
        assert(white(s[a]));
    }
}

/// The number that a text of digits says in a base.
pub open spec fn number_said(s: Seq<char>, base: nat) -> nat
    decreases s.len(),
{
    if s.len() == 0 {
        0
    } else {
        let c = s.last() as u32;
        let d: int = if c < 0x61 {
            c - 0x30
        } else {
            c - 0x61 + 10
        };
        (number_said(s.drop_last(), base) * base + d) as nat
    }
}

/// A number is written in digits that say it, without zeros in front.
pub proof fn law_decimal_says_its_number(n: nat)
    ensures
        number_said(decimal(n), 10) == n,
        decimal(n).len() > 0,
        forall|i: int|
            0 <= i < decimal(n).len() ==> '0' <= #[trigger] decimal(n)[i] && decimal(n)[i] <= '9',
        n > 0 ==> decimal(n)[0] != '0',
    decreases n,
{
    if n < 10 {
        assert(decimal(n).drop_last() =~= seq![]);
        assert(number_said(decimal(n).drop_last(), 10) == 0);
    } else {
        law_decimal_says_its_number(n / 10);
        assert(decimal(n).drop_last() =~= decimal(n / 10));
    }
}

/// Different numbers are written differently.
pub proof fn law_decimals_differ(m: nat, n: nat)
    requires
        decimal(m) == decimal(n),
    ensures
        m == n,
{
    law_decimal_says_its_number(m);
    law_decimal_says_its_number(n);
}

/// The hexadecimal digits of a number that has no more of them say it.
pub proof fn law_hex_says_its_number(n: nat, width: nat)
    requires
        n < vstd::arithmetic::power::pow(16, width),
    ensures
        number_said(hex(n, width), 16) == n,
        hex(n, width).len() == width,
    decreases width,
{
    reveal(vstd::arithmetic::power::pow);
    lemma_hex_shape(n, width);
    if width > 0 {
        let w = (width - 1) as nat;
        assert(vstd::arithmetic::power::pow(16, width) == 16 * vstd::arithmetic::power::pow(16, w));
        law_hex_says_its_number(n / 16, w);
        assert(hex(n, width).drop_last() =~= hex(n / 16, w));
    }
}

/// Joining is putting the separator between what neighbouring lists join to.
pub proof fn law_joining_puts_the_separator_between(
    parts: Seq<Seq<char>>,
    more: Seq<Seq<char>>,
    separator: Seq<char>,
)
    requires
        parts.len() > 0,
        more.len() > 0,
    ensures
        joined(Seq::<Seq<char>>::empty(), separator).len() == 0,
        joined(seq![parts[0]], separator) == parts[0],
        joined(parts + more, separator) == joined(parts, separator) + separator + joined(
            more,
            separator,
        ),
    decreases more.len(),
{
    assert((parts + more).last() == more.last());
    assert((parts + more).drop_last() =~= parts + more.drop_last());
    if more.len() == 1 {
        assert(parts + more.drop_last() =~= parts);
    } else {
        law_joining_puts_the_separator_between(parts, more.drop_last(), separator);
        assert(joined(parts + more, separator) =~= joined(parts, separator) + separator + joined(
            more,
            separator,
        ));
    }
}

} // verus!
