//! Text handling shared by the relay: trimming, decimal numbers, comparison
//! and bounded snippets.

use vstd::prelude::*;
use vstd::string::*;
use vstd::utf8::*;

verus! {

/// A class of characters that is trimmed off the ends of a text.
#[derive(Clone, Copy)]
pub enum Strip {
    /// Unicode white space.
    White,
    /// The slash.
    Slash,
    /// Unicode white space and the slash.
    Padding,
}

/// The characters with the Unicode property `White_Space`.
pub open spec fn is_white(c: char) -> bool {
    ||| 0x09 <= c as u32 <= 0x0d
    ||| c as u32 == 0x20
    ||| c as u32 == 0x85
    ||| c as u32 == 0xa0
    ||| c as u32 == 0x1680
    ||| 0x2000 <= c as u32 <= 0x200a
    ||| c as u32 == 0x2028
    ||| c as u32 == 0x2029
    ||| c as u32 == 0x202f
    ||| c as u32 == 0x205f
    ||| c as u32 == 0x3000
}

/// Whether `c` belongs to the class `class`.
pub open spec fn strips(class: Strip, c: char) -> bool {
    match class {
        Strip::White => is_white(c),
        Strip::Slash => c == '/',
        Strip::Padding => is_white(c) || c == '/',
    }
}

/// `s` without the characters of `class` that it starts with.
pub open spec fn strip_start(s: Seq<char>, class: Strip) -> Seq<char>
    decreases s.len(),
{
    if s.len() > 0 && strips(class, s[0]) {
        strip_start(s.drop_first(), class)
    } else {
        s
    }
}

/// `s` without the characters of `class` that it ends with.
pub open spec fn strip_end(s: Seq<char>, class: Strip) -> Seq<char>
    decreases s.len(),
{
    if s.len() > 0 && strips(class, s.last()) {
        strip_end(s.drop_last(), class)
    } else {
        s
    }
}

/// `s` without the characters of `class` at either end.
pub open spec fn strip(s: Seq<char>, class: Strip) -> Seq<char> {
    strip_end(strip_start(s, class), class)
}

/// `s` without surrounding white space and slashes, however they are mixed.
pub open spec fn tidy(s: Seq<char>) -> Seq<char> {
    strip(s, Strip::Padding)
}

/// `s` without leading white space, and without trailing white space and slashes,
/// however the latter are mixed.
pub open spec fn tidy_end(s: Seq<char>) -> Seq<char> {
    strip_end(strip_start(s, Strip::White), Strip::Padding)
}

/// Whether `s` holds nothing but white space.
pub open spec fn is_blank(s: Seq<char>) -> bool {
    strip(s, Strip::White).len() == 0
}

proof fn lemma_strip_start_is_skip(s: Seq<char>, class: Strip, n: int)
    requires
        0 <= n <= s.len(),
        forall|j: int| 0 <= j < n ==> strips(class, #[trigger] s[j]),
        n < s.len() ==> !strips(class, s[n]),
    ensures
        strip_start(s, class) == s.skip(n),
    decreases n,
{
    if n > 0 {
        assert(strips(class, s[0]));
        let rest = s.drop_first();
        assert forall|j: int| 0 <= j < n - 1 implies strips(class, #[trigger] rest[j]) by {
            assert(rest[j] == s[j + 1]);
        }
        lemma_strip_start_is_skip(rest, class, n - 1);
        assert(rest.skip(n - 1) =~= s.skip(n));
    } else {
        assert(s.skip(0) =~= s);
    }
}

proof fn lemma_strip_end_is_take(s: Seq<char>, class: Strip, n: int)
    requires
        0 <= n <= s.len(),
        forall|j: int| n <= j < s.len() ==> strips(class, #[trigger] s[j]),
        n > 0 ==> !strips(class, s[n - 1]),
    ensures
        strip_end(s, class) == s.take(n),
    decreases s.len() - n,
{
    if n < s.len() {
        assert(strips(class, s[s.len() - 1]));
        lemma_strip_end_is_take(s.drop_last(), class, n);
        assert(s.drop_last().take(n) =~= s.take(n));
    } else {
        assert(s.take(n) =~= s);
    }
}

/// Whether `s` consists of characters of `class` only.
pub open spec fn is_padding(s: Seq<char>, class: Strip) -> bool {
    forall|i: int| 0 <= i < s.len() ==> strips(class, #[trigger] s[i])
}

/// Whether `s` neither starts nor ends with white space or a slash.
pub open spec fn is_bare(s: Seq<char>) -> bool {
    s.len() > 0 ==> !strips(Strip::Padding, s[0]) && !strips(Strip::Padding, s.last())
}

proof fn lemma_strip_start_padding(pad: Seq<char>, s: Seq<char>, class: Strip)
    requires
        is_padding(pad, class),
        s.len() > 0 ==> !strips(class, s[0]),
    ensures
        strip_start(pad + s, class) == s,
{
    let whole = pad + s;
    assert forall|j: int| 0 <= j < pad.len() implies strips(class, #[trigger] whole[j]) by {
        assert(whole[j] == pad[j]);
    }
    lemma_strip_start_is_skip(whole, class, pad.len() as int);
    assert(whole.skip(pad.len() as int) =~= s);
}

proof fn lemma_strip_end_padding(s: Seq<char>, pad: Seq<char>, class: Strip)
    requires
        is_padding(pad, class),
        s.len() > 0 ==> !strips(class, s.last()),
    ensures
        strip_end(s + pad, class) == s,
{
    let whole = s + pad;
    assert forall|j: int| s.len() <= j < whole.len() implies strips(
        class,
        #[trigger] whole[j],
    ) by {
        assert(whole[j] == pad[j - s.len()]);
    }
    lemma_strip_end_is_take(whole, class, s.len() as int);
    assert(whole.take(s.len() as int) =~= s);
}

proof fn lemma_strip_padding(before: Seq<char>, s: Seq<char>, after: Seq<char>, class: Strip)
    requires
        is_padding(before, class),
        is_padding(after, class),
        s.len() > 0 ==> !strips(class, s[0]) && !strips(class, s.last()),
    ensures
        strip(before + s + after, class) == s,
{
    if s.len() > 0 {
        assert(before + s + after =~= before + (s + after));
        lemma_strip_start_padding(before, s + after, class);
    } else {
        let all = before + s + after;
        assert forall|i: int| 0 <= i < all.len() implies strips(class, #[trigger] all[i]) by {
            if i < before.len() {
                assert(all[i] == before[i]);
            } else {
                assert(all[i] == after[i - before.len()]);
            }
        }
        lemma_strip_start_padding(all, s, class);
        assert(all + s =~= all);
        assert(s + seq![] =~= s);
        lemma_strip_end_padding(s, seq![], class);
        assert(strip_start(all, class) == s);
    }
    if s.len() > 0 {
        lemma_strip_end_padding(s, after, class);
    }
}

proof fn lemma_strip_end_keeps(s: Seq<char>, class: Strip)
    requires
        s.len() > 0,
        !strips(class, s[0]),
    ensures
        strip_end(s, class).len() > 0,
    decreases s.len(),
{
    if strips(class, s.last()) {
        lemma_strip_end_keeps(s.drop_last(), class);
    }
}

/// White space and slashes around a bare text do not matter, however they are mixed.
pub proof fn law_tidy_drops_padding(before: Seq<char>, s: Seq<char>, after: Seq<char>)
    requires
        is_padding(before, Strip::Padding),
        is_bare(s),
        is_padding(after, Strip::Padding),
    ensures
        tidy(before + s + after) == s,
        tidy(s) == s,
{
    lemma_strip_padding(before, s, after, Strip::Padding);
    lemma_strip_padding(seq![], s, seq![], Strip::Padding);
    assert(seq![] + s + seq![] =~= s);
}

/// White space before a setting, and white space and slashes after it, do not matter,
/// however the latter are mixed.
pub proof fn law_setting_drops_padding(
    white_before: Seq<char>,
    s: Seq<char>,
    after: Seq<char>,
    default: Seq<char>,
)
    requires
        is_padding(white_before, Strip::White),
        s.len() > 0,
        !is_white(s[0]),
        !strips(Strip::Padding, s.last()),
        is_padding(after, Strip::Padding),
    ensures
        setting_value(Some(white_before + s + after), default) == s,
{
    let inner = s + after;
    assert(white_before + s + after =~= white_before + inner);
    assert(inner[0] == s[0]);
    lemma_strip_start_padding(white_before, inner, Strip::White);
    lemma_strip_end_keeps(inner, Strip::White);
    lemma_strip_end_padding(s, after, Strip::Padding);
}

/// White space around a text that neither starts nor ends with any does not matter to a
/// trim of white space, nor do slashes to a trim of slashes. What is between them is kept
/// as it is.
pub proof fn law_strip_drops_padding(
    before: Seq<char>,
    s: Seq<char>,
    after: Seq<char>,
    class: Strip,
)
    requires
        is_padding(before, class),
        is_padding(after, class),
        s.len() > 0 ==> !strips(class, s[0]) && !strips(class, s.last()),
    ensures
        strip(before + s + after, class) == s,
        s.len() > 0 ==> strip_start(before + s + after, class) == s + after,
        s.len() > 0 ==> strip_end(before + s + after, class) == before + s,
{
    lemma_strip_padding(before, s, after, class);
    if s.len() > 0 {
        assert(before + s + after =~= before + (s + after));
        assert((s + after)[0] == s[0]);
        lemma_strip_start_padding(before, s + after, class);
        assert((before + s).last() == s.last());
        lemma_strip_end_padding(before + s, after, class);
    }
}

/// Slashes at the end of a text that ends with none are cut off, and nothing else is.
pub proof fn law_trailing_slashes_are_cut(s: Seq<char>, slashes: Seq<char>)
    requires
        s.len() > 0 ==> s.last() != '/',
        forall|i: int| 0 <= i < slashes.len() ==> #[trigger] slashes[i] == '/',
    ensures
        strip_end(s + slashes, Strip::Slash) == s,
{
    lemma_strip_end_padding(s, slashes, Strip::Slash);
}

/// Just white space is white: tabs, line breaks, blanks, and what else has the Unicode
/// property. Just the slash is a slash.
pub proof fn law_classes(c: char)
    ensures
        strips(Strip::Slash, c) <==> c == '/',
        strips(Strip::Padding, c) <==> strips(Strip::White, c) || strips(Strip::Slash, c),
        c == ' ' || c == '\t' || c == '\n' || c == '\r' ==> strips(Strip::White, c),
        0x21 <= c as u32 <= 0x7e ==> !strips(Strip::White, c),
{
}

/// A text is blank just where all its characters are white space.
pub proof fn law_blank_is_all_white(s: Seq<char>)
    ensures
        is_blank(s) <==> forall|i: int| 0 <= i < s.len() ==> is_white(#[trigger] s[i]),
    decreases s.len(),
{
    if forall|i: int| 0 <= i < s.len() ==> is_white(#[trigger] s[i]) {
        assert(s + seq![] + seq![] =~= s);
        lemma_strip_padding(s, seq![], seq![], Strip::White);
    } else if is_white(s[0]) {
        let rest = s.drop_first();
        law_blank_is_all_white(rest);
        let i = choose|i: int| 0 <= i < s.len() && !is_white(#[trigger] s[i]);
        assert(rest[i - 1] == s[i]);
    } else {
        lemma_strip_end_keeps(s, Strip::White);
    }
}

/// A setting of white space and slashes alone, with a slash among them, is set, to
/// nothing.
pub proof fn law_setting_of_slashes_is_empty(v: Seq<char>, default: Seq<char>, at: int)
    requires
        is_padding(v, Strip::Padding),
        0 <= at < v.len(),
        v[at] == '/',
    ensures
        setting_value(Some(v), default) == Seq::<char>::empty(),
{
    law_blank_is_all_white(v);
    assert(!is_white(v[at]));
    lemma_strip_start_keeps_padding(v);
    let rest = strip_start(v, Strip::White);
    assert(seq![] + rest =~= rest);
    lemma_strip_end_padding(seq![], rest, Strip::Padding);
}

proof fn lemma_strip_start_keeps_padding(v: Seq<char>)
    requires
        is_padding(v, Strip::Padding),
    ensures
        is_padding(strip_start(v, Strip::White), Strip::Padding),
    decreases v.len(),
{
    if v.len() > 0 && is_white(v[0]) {
        let rest = v.drop_first();
        assert forall|i: int| 0 <= i < rest.len() implies strips(
            Strip::Padding,
            #[trigger] rest[i],
        ) by {
            assert(rest[i] == v[i + 1]);
        }
        lemma_strip_start_keeps_padding(rest);
    }
}

/// A setting that is blank counts as unset.
pub proof fn law_blank_setting_is_unset(white: Seq<char>, default: Seq<char>)
    requires
        is_padding(white, Strip::White),
    ensures
        setting_value(Some(white), default) == default,
        setting_value(None, default) == default,
{
    assert(white + seq![] + seq![] =~= white);
    lemma_strip_padding(white, seq![], seq![], Strip::White);
}

/// Whether `c` has the Unicode property `White_Space`.
pub fn is_whitespace(c: char) -> (r: bool)
    ensures
        r == is_white(c),
{
    let n: u32 = c as u32;
    (0x09 <= n && n <= 0x0d) || n == 0x20 || n == 0x85 || n == 0xa0 || n == 0x1680 || (0x2000 <= n
        && n <= 0x200a) || n == 0x2028 || n == 0x2029 || n == 0x202f || n == 0x205f || n == 0x3000
}

fn is_stripped(class: Strip, c: char) -> (r: bool)
    ensures
        r == strips(class, c),
{
    match class {
        Strip::White => is_whitespace(c),
        Strip::Slash => c == '/',
        Strip::Padding => is_whitespace(c) || c == '/',
    }
}

/// `s` without the characters of `class` that it starts with.
pub fn trim_start<'a>(s: &'a str, class: Strip) -> (r: &'a str)
    ensures
        r@ == strip_start(s@, class),
{
    let len: usize = s.unicode_len();
    let mut n: usize = 0;
    let mut found = false;
    for c in it: s.chars()
        invariant
            it.seq() == s@,
            len == s@.len(),
            n <= len,
            forall|j: int| 0 <= j < n ==> strips(class, #[trigger] s@[j]),
            !found ==> n == it.index(),
            found ==> n < len && !strips(class, s@[n as int]),
    {
        if !found {
            if is_stripped(class, c) {
                n = n + 1;
            } else {
                found = true;
            }
        }
    }
    proof {
        lemma_strip_start_is_skip(s@, class, n as int);
        assert(s@.subrange(n as int, len as int) =~= s@.skip(n as int));
    }
    s.substring_char(n, len)
}

/// `s` without the characters of `class` that it ends with.
pub fn trim_end<'a>(s: &'a str, class: Strip) -> (r: &'a str)
    ensures
        r@ == strip_end(s@, class),
{
    let len: usize = s.unicode_len();
    let mut n: usize = 0;
    let mut seen: usize = 0;
    for c in it: s.chars()
        invariant
            it.seq() == s@,
            len == s@.len(),
            seen == it.index(),
            n <= seen <= len,
            forall|j: int| n <= j < seen ==> strips(class, #[trigger] s@[j]),
            n > 0 ==> !strips(class, s@[n - 1]),
    {
        seen = seen + 1;
        if !is_stripped(class, c) {
            n = seen;
        }
    }
    proof {
        lemma_strip_end_is_take(s@, class, n as int);
        assert(s@.subrange(0, n as int) =~= s@.take(n as int));
    }
    s.substring_char(0, n)
}

/// `s` without the characters of `class` at either end.
pub fn trim<'a>(s: &'a str, class: Strip) -> (r: &'a str)
    ensures
        r@ == strip(s@, class),
{
    trim_end(trim_start(s, class), class)
}

/// `s` without surrounding white space and slashes, however they are mixed.
pub fn trim_tidy<'a>(s: &'a str) -> (r: &'a str)
    ensures
        r@ == tidy(s@),
{
    trim(s, Strip::Padding)
}

/// `s` without leading white space, and without trailing white space and slashes,
/// however the latter are mixed.
pub fn trim_tidy_end<'a>(s: &'a str) -> (r: &'a str)
    ensures
        r@ == tidy_end(s@),
{
    trim_end(trim_start(s, Strip::White), Strip::Padding)
}

/// Whether `s` holds nothing but white space.
pub fn blank(s: &str) -> (r: bool)
    ensures
        r == is_blank(s@),
{
    trim(s, Strip::White).is_empty()
}

/// What a setting comes to, given the text that it was set to and a default: the text
/// without surrounding white space and trailing slashes, or the default where it is
/// unset or blank.
pub open spec fn setting_value(value: Option<Seq<char>>, default: Seq<char>) -> Seq<char> {
    match value {
        Some(v) => if is_blank(v) {
            default
        } else {
            tidy_end(v)
        },
        None => default,
    }
}

/// The contents of a text that may be missing.
pub open spec fn contents(s: Option<&str>) -> Option<Seq<char>> {
    match s {
        Some(s) => Some(s@),
        None => None,
    }
}

/// What a setting comes to: `value` without surrounding white space and trailing
/// slashes, or `default` where it is unset or blank.
pub fn setting(value: Option<&str>, default: &str) -> (r: String)
    ensures
        r@ == setting_value(contents(value), default@),
{
    match value {
        Some(v) if !blank(v) => trim_tidy_end(v).to_owned(),
        _ => default.to_owned(),
    }
}

/// Whether two texts are equal.
pub fn same(a: &str, b: &str) -> (r: bool)
    ensures
        r == (a@ == b@),
{
    let len: usize = a.unicode_len();
    if len != b.unicode_len() {
        return false;
    }
    let mut i: usize = 0;
    while i < len
        invariant
            len == a@.len(),
            len == b@.len(),
            i <= len,
            forall|j: int| 0 <= j < i ==> #[trigger] a@[j] == b@[j],
        decreases len - i,
    {
        if a.get_char(i) != b.get_char(i) {
            return false;
        }
        i = i + 1;
    }
    assert(a@ =~= b@);
    true
}

/// The lower-case form of an ASCII capital; any other character is kept.
pub open spec fn ascii_lower(c: char) -> char {
    if 'A' <= c <= 'Z' {
        (c as u32 + 32) as char
    } else {
        c
    }
}

/// Whether two texts are equal but for the case of ASCII letters.
pub open spec fn equal_ignoring_ascii_case(a: Seq<char>, b: Seq<char>) -> bool {
    &&& a.len() == b.len()
    &&& forall|i: int| 0 <= i < a.len() ==> ascii_lower(#[trigger] a[i]) == ascii_lower(b[i])
}

/// Texts are equal so just where they are equally long and every two characters in one
/// place are the same, or the two cases of one ASCII letter.
pub proof fn law_case_does_not_matter(a: Seq<char>, b: Seq<char>)
    ensures
        equal_ignoring_ascii_case(a, b) <==> a.len() == b.len() && forall|i: int|
            0 <= i < a.len() ==> {
                let (x, y) = (#[trigger] a[i], b[i]);
                ||| x == y
                ||| 'A' <= x <= 'Z' && y as int == x as int + 32
                ||| 'A' <= y <= 'Z' && x as int == y as int + 32
            },
        equal_ignoring_ascii_case(a, b) == equal_ignoring_ascii_case(b, a),
{
    if equal_ignoring_ascii_case(a, b) {
        assert forall|i: int| 0 <= i < b.len() implies ascii_lower(#[trigger] b[i]) == ascii_lower(
            a[i],
        ) by {
            assert(ascii_lower(a[i]) == ascii_lower(b[i]));
        }
    }
    if equal_ignoring_ascii_case(b, a) {
        assert forall|i: int| 0 <= i < a.len() implies ascii_lower(#[trigger] a[i]) == ascii_lower(
            b[i],
        ) by {
            assert(ascii_lower(b[i]) == ascii_lower(a[i]));
        }
    }
}

fn lower(c: char) -> (r: char)
    ensures
        r == ascii_lower(c),
{
    if 'A' <= c && c <= 'Z' {
        (c as u8 + 32) as char
    } else {
        c
    }
}

/// Whether two texts are equal but for the case of ASCII letters.
pub fn same_ignoring_ascii_case(a: &str, b: &str) -> (r: bool)
    ensures
        r == equal_ignoring_ascii_case(a@, b@),
{
    let len: usize = a.unicode_len();
    if len != b.unicode_len() {
        return false;
    }
    let mut i: usize = 0;
    while i < len
        invariant
            len == a@.len(),
            len == b@.len(),
            i <= len,
            forall|j: int| 0 <= j < i ==> ascii_lower(#[trigger] a@[j]) == ascii_lower(b@[j]),
        decreases len - i,
    {
        if lower(a.get_char(i)) != lower(b.get_char(i)) {
            return false;
        }
        i = i + 1;
    }
    true
}

/// Whether `s` is one or more decimal digits.
pub open spec fn is_decimal(s: Seq<char>) -> bool {
    &&& s.len() > 0
    &&& forall|i: int| 0 <= i < s.len() ==> '0' <= #[trigger] s[i] <= '9'
}

/// The number that the decimal digits `s` stand for.
pub open spec fn decimal_value(s: Seq<char>) -> int
    decreases s.len(),
{
    if s.len() == 0 {
        0
    } else {
        10 * decimal_value(s.drop_last()) + (s.last() as int - '0' as int)
    }
}

/// `s` without the plus sign that it may start with.
pub open spec fn unsigned_digits(s: Seq<char>) -> Seq<char> {
    if s.len() > 0 && s[0] == '+' {
        s.drop_first()
    } else {
        s
    }
}

/// The number written in `s`: decimal digits, with or without a plus sign before
/// them, for a number of at most `max`.
pub open spec fn unsigned_value(s: Seq<char>, max: int) -> Option<int> {
    if is_decimal(unsigned_digits(s)) && decimal_value(unsigned_digits(s)) <= max {
        Some(decimal_value(unsigned_digits(s)))
    } else {
        None
    }
}

proof fn lemma_decimal_value_grows(s: Seq<char>, n: int)
    requires
        0 <= n <= s.len(),
        forall|i: int| 0 <= i < s.len() ==> '0' <= #[trigger] s[i] <= '9',
    ensures
        0 <= decimal_value(s.take(n)) <= decimal_value(s),
    decreases s.len(),
{
    if n < s.len() {
        let front = s.drop_last();
        lemma_decimal_value_grows(front, n);
        assert(front.take(n) =~= s.take(n));
        assert('0' <= s[s.len() - 1] <= '9');
    } else {
        assert(s.take(n) =~= s);
        if s.len() > 0 {
            lemma_decimal_value_grows(s.drop_last(), s.len() - 1);
            assert(s.drop_last().take(s.len() - 1) =~= s.drop_last());
            assert('0' <= s[s.len() - 1] <= '9');
        }
    }
}

/// Reads an unsigned decimal number of at most `max`: one or more digits, with or
/// without a plus sign before them.
pub fn parse_unsigned(s: &str, max: u64) -> (r: Option<u64>)
    ensures
        match r {
            Some(n) => unsigned_value(s@, max as int) == Some(n as int),
            None => unsigned_value(s@, max as int) is None,
        },
{
    let whole: usize = s.unicode_len();
    let digits: &str = if whole > 0 && s.get_char(0) == '+' {
        proof {
            assert(s@.subrange(1, whole as int) =~= s@.drop_first());
        }
        s.substring_char(1, whole)
    } else {
        s
    };
    let ghost d = digits@;
    let len: usize = digits.unicode_len();
    let mut value: u64 = 0;
    let mut well_formed = len > 0;
    let mut fits = true;
    for c in it: digits.chars()
        invariant
            it.seq() == d,
            len == d.len(),
            well_formed ==> len > 0 && forall|j: int|
                0 <= j < it.index() ==> '0' <= #[trigger] d[j] <= '9',
            !well_formed ==> !is_decimal(d),
            well_formed && fits ==> value <= max && value == decimal_value(d.take(it.index())),
            well_formed && !fits ==> decimal_value(d.take(it.index())) > max,
    {
        let ghost n = it.index();
        proof {
            assert(d.take(n + 1).drop_last() =~= d.take(n));
            assert(d.take(n + 1).last() == c);
        }
        if c < '0' || c > '9' {
            assert(!('0' <= d[n] <= '9'));
            well_formed = false;
        } else if well_formed {
            let digit: u64 = (c as u32 - '0' as u32) as u64;
            proof {
                assert forall|i: int| 0 <= i < d.take(n + 1).len() implies '0' <= #[trigger] d.take(
                    n + 1,
                )[i] <= '9' by {
                    assert(d.take(n + 1)[i] == d[i]);
                }
                lemma_decimal_value_grows(d.take(n + 1), n);
                assert(d.take(n + 1).take(n) =~= d.take(n));
            }
            if fits {
                if value > max / 10 || digit > max - 10 * value {
                    fits = false;
                } else {
                    value = 10 * value + digit;
                }
            }
        }
    }
    proof {
        assert(d.take(len as int) =~= d);
    }
    if well_formed && fits {
        Some(value)
    } else {
        None
    }
}

/// The decimal digit of a number below ten.
pub open spec fn digit(n: int) -> char {
    if n == 0 {
        '0'
    } else if n == 1 {
        '1'
    } else if n == 2 {
        '2'
    } else if n == 3 {
        '3'
    } else if n == 4 {
        '4'
    } else if n == 5 {
        '5'
    } else if n == 6 {
        '6'
    } else if n == 7 {
        '7'
    } else if n == 8 {
        '8'
    } else {
        '9'
    }
}

/// How a number is written in decimal.
pub open spec fn decimal_text(n: int) -> Seq<char>
    decreases n,
{
    if n < 10 {
        seq![digit(n)]
    } else {
        decimal_text(n / 10).push(digit(n % 10))
    }
}

proof fn lemma_decimal_text(zeros: Seq<char>, n: int)
    requires
        0 <= n,
        forall|i: int| 0 <= i < zeros.len() ==> #[trigger] zeros[i] == '0',
    ensures
        is_decimal(zeros + decimal_text(n)),
        decimal_value(zeros + decimal_text(n)) == n,
    decreases n,
{
    let whole = zeros + decimal_text(n);
    if n < 10 {
        lemma_zeros(zeros);
        assert(whole.drop_last() =~= zeros);
    } else {
        lemma_decimal_text(zeros, n / 10);
        assert(whole.drop_last() =~= zeros + decimal_text(n / 10));
    }
    assert(whole.last() == digit(n % 10));
    assert forall|i: int| 0 <= i < whole.len() implies '0' <= #[trigger] whole[i] <= '9' by {
        if n >= 10 && i < whole.len() - 1 {
            assert(whole.drop_last()[i] == whole[i]);
        } else if i < zeros.len() {
            assert(whole[i] == zeros[i]);
        }
    }
}

proof fn lemma_zeros(zeros: Seq<char>)
    requires
        forall|i: int| 0 <= i < zeros.len() ==> #[trigger] zeros[i] == '0',
    ensures
        decimal_value(zeros) == 0,
    decreases zeros.len(),
{
    if zeros.len() > 0 {
        assert(zeros.last() == zeros[zeros.len() - 1]);
        lemma_zeros(zeros.drop_last());
    }
}

/// A number that is written out is read back as the same number, with or without a plus
/// sign and zeros before it, where it is at most `max`; a larger one is not read.
pub proof fn law_number_reads_back(zeros: Seq<char>, n: int, max: int)
    requires
        0 <= n,
        forall|i: int| 0 <= i < zeros.len() ==> #[trigger] zeros[i] == '0',
    ensures
        unsigned_value(zeros + decimal_text(n), max) == if n <= max {
            Some(n)
        } else {
            None
        },
        unsigned_value(seq!['+'] + (zeros + decimal_text(n)), max) == if n <= max {
            Some(n)
        } else {
            None
        },
{
    let s = zeros + decimal_text(n);
    lemma_decimal_text(zeros, n);
    assert('0' <= s[0] <= '9');
    assert((seq!['+'] + s).drop_first() =~= s);
}

/// White space around a number that is written out does not matter.
pub proof fn law_padded_number_reads_back(
    before: Seq<char>,
    zeros: Seq<char>,
    n: int,
    after: Seq<char>,
    max: int,
)
    requires
        0 <= n,
        is_padding(before, Strip::White),
        forall|i: int| 0 <= i < zeros.len() ==> #[trigger] zeros[i] == '0',
        is_padding(after, Strip::White),
    ensures
        unsigned_value(strip(before + (zeros + decimal_text(n)) + after, Strip::White), max)
            == if n <= max {
            Some(n)
        } else {
            None
        },
{
    let s = zeros + decimal_text(n);
    law_number_reads_back(zeros, n, max);
    lemma_decimal_text(zeros, n);
    assert('0' <= s[0] <= '9');
    assert('0' <= s[s.len() - 1] <= '9');
    lemma_strip_padding(before, s, after, Strip::White);
}

/// A text that is empty, is a sign alone, or holds anything but digits behind an optional
/// plus sign is no number.
pub proof fn law_other_texts_are_no_number(s: Seq<char>, max: int, at: int)
    requires
        s.len() == 0 || s == seq!['+'] || (0 <= at < s.len() && !('0' <= s[at] <= '9') && !(at == 0
            && s[at] == '+')),
    ensures
        unsigned_value(s, max) is None,
{
    let d = unsigned_digits(s);
    if s == seq!['+'] {
        assert(d =~= Seq::empty());
    } else if s.len() > 0 {
        if s[0] == '+' {
            assert(d[at - 1] == s[at]);
        }
    }
}

/// The largest number of leading characters of `s`, at most `n`, that take up no
/// more than `max` bytes in UTF-8.
pub open spec fn longest_prefix(s: Seq<char>, n: int, max: int) -> int
    decreases n,
{
    if n <= 0 || encode_utf8(s.take(n)).len() <= max {
        n
    } else {
        longest_prefix(s, n - 1, max)
    }
}

/// `s` where it takes up at most `max` bytes in UTF-8; else its longest prefix
/// that does, followed by an ellipsis.
pub open spec fn truncated(s: Seq<char>, max: int) -> Seq<char> {
    if encode_utf8(s).len() <= max {
        s
    } else {
        s.take(longest_prefix(s, s.len() as int, max)).push('\u{2026}')
    }
}

/// What is kept of a text that is cut takes up at most `max` bytes in UTF-8, and no
/// longer prefix does.
pub proof fn law_longest_prefix_fits(s: Seq<char>, n: int, max: int)
    requires
        0 <= n <= s.len(),
        0 <= max,
    ensures
        0 <= longest_prefix(s, n, max) <= n,
        encode_utf8(s.take(longest_prefix(s, n, max))).len() <= max,
        forall|m: int|
            longest_prefix(s, n, max) < m <= n ==> encode_utf8(#[trigger] s.take(m)).len() > max,
    decreases n,
{
    if n == 0 {
        assert(s.take(0) =~= Seq::empty());
    } else if encode_utf8(s.take(n)).len() > max {
        law_longest_prefix_fits(s, n - 1, max);
    }
}

proof fn lemma_encode_concat(a: Seq<char>, b: Seq<char>)
    ensures
        encode_utf8(a + b) == encode_utf8(a) + encode_utf8(b),
    decreases a.len(),
{
    if a.len() == 0 {
        assert(a + b =~= b);
        assert(encode_utf8(a) + encode_utf8(b) =~= encode_utf8(b));
    } else {
        lemma_encode_concat(a.drop_first(), b);
        assert((a + b).drop_first() =~= a.drop_first() + b);
        assert(encode_utf8(a + b) =~= encode_utf8(a) + encode_utf8(b));
    }
}

proof fn lemma_prefix_is_boundary(s: Seq<char>, n: int)
    requires
        0 <= n <= s.len(),
    ensures
        is_char_boundary(encode_utf8(s), encode_utf8(s.take(n)).len() as int),
        valid_utf8(encode_utf8(s)),
    decreases n,
{
    let bytes = encode_utf8(s);
    encode_utf8_valid_utf8(s);
    if n == 0 {
        assert(s.take(0) =~= seq![]);
    } else {
        let rest = s.drop_first();
        encode_utf8_first_scalar(s);
        lemma_prefix_is_boundary(rest, n - 1);
        assert(pop_first_scalar(bytes) =~= encode_utf8(rest));
        assert(s.take(n).drop_first() =~= rest.take(n - 1));
        assert(s.take(n)[0] == s[0]);
        lemma_encode_concat(s.take(n), s.skip(n));
        assert(s.take(n) + s.skip(n) =~= s);
    }
}

proof fn lemma_longest_prefix(s: Seq<char>, n: int, k: int, max: int)
    requires
        0 <= k <= n <= s.len(),
        encode_utf8(s.take(k)).len() <= max,
        k < s.len() ==> encode_utf8(s.take(k + 1)).len() > max,
    ensures
        longest_prefix(s, n, max) == k,
    decreases n,
{
    if n > k {
        assert(encode_utf8(s.take(n)).len() > max) by {
            lemma_encode_concat(s.take(k + 1), s.subrange(k + 1, n));
            assert(s.take(k + 1) + s.subrange(k + 1, n) =~= s.take(n));
        }
        lemma_longest_prefix(s, n - 1, k, max);
    }
}

/// A text that fits is kept whole. Of any other one the first characters are kept that fit
/// into `max` bytes of UTF-8, as many as there are, and a mark follows. So it takes up at
/// most `max` bytes, and three more for the mark.
pub proof fn law_truncated_is_bounded(s: Seq<char>, max: int)
    requires
        0 <= max,
    ensures
        encode_utf8(truncated(s, max)).len() <= max + 3,
        encode_utf8(s).len() > max ==> {
            let cut = truncated(s, max);
            let k = cut.len() - 1;
            &&& 0 <= k < s.len()
            &&& cut == s.take(k) + seq!['\u{2026}']
            &&& encode_utf8(s.take(k)).len() <= max < encode_utf8(s.take(k + 1)).len()
        },
        encode_utf8(s).len() <= max ==> truncated(s, max) == s,
{
    let k = longest_prefix(s, s.len() as int, max);
    law_longest_prefix_fits(s, s.len() as int, max);
    lemma_mark(s.take(k));
    if encode_utf8(s).len() > max {
        assert(s.take(s.len() as int) =~= s);
        assert(truncated(s, max) =~= s.take(k) + seq!['\u{2026}']);
    }
}

/// Cutting a text that was cut changes nothing.
pub proof fn law_truncated_is_stable(s: Seq<char>, max: int)
    requires
        0 <= max,
    ensures
        truncated(truncated(s, max), max) == truncated(s, max),
{
    let k = longest_prefix(s, s.len() as int, max);
    law_longest_prefix_fits(s, s.len() as int, max);
    let kept = s.take(k);
    let cut = kept.push('\u{2026}');
    lemma_mark(kept);
    if encode_utf8(s).len() > max && encode_utf8(cut).len() > max {
        assert(cut.take(k) =~= kept);
        assert(cut.take(k + 1) =~= cut);
        lemma_longest_prefix(cut, k + 1, k, max);
    }
}

proof fn lemma_mark(kept: Seq<char>)
    ensures
        encode_utf8(kept.push('\u{2026}')).len() == encode_utf8(kept).len() + 3,
{
    let mark = seq!['\u{2026}'];
    assert(kept.push('\u{2026}') =~= kept + mark);
    lemma_encode_concat(kept, mark);
    reveal_with_fuel(encode_utf8, 2);
    assert(mark.drop_first() =~= Seq::empty());
}

/// Cuts `s` down to at most `max` bytes, on a character boundary, and marks the
/// cut with an ellipsis. A text of at most `max` bytes is kept whole.
pub fn truncate(s: &str, max: usize) -> (r: String)
    ensures
        r@ == truncated(s@, max as int),
{
    if s.as_bytes().len() <= max {
        return s.to_owned();
    }
    let ghost bytes = s.spec_bytes();
    proof {
        encode_utf8_valid_utf8(s@);
        is_char_boundary_start_end_of_seq(bytes);
    }
    let mut end: usize = max;
    while !s.is_char_boundary(end)
        invariant
            end <= max,
            bytes == s.spec_bytes(),
            is_char_boundary(bytes, 0),
            forall|i: int| end < i <= max ==> !is_char_boundary(bytes, i),
        decreases end,
    {
        end = end - 1;
    }
    let (kept, dropped) = s.split_at(end);
    proof {
        let k = kept@.len() as int;
        lemma_encode_concat(kept@, dropped@);
        assert(encode_utf8(kept@ + dropped@) =~= bytes);
        encode_utf8_decode_utf8(kept@ + dropped@);
        encode_utf8_decode_utf8(s@);
        assert(kept@ + dropped@ == s@);
        assert(s@.take(k) =~= kept@);
        if k < s@.len() {
            lemma_prefix_is_boundary(s@, k + 1);
            lemma_encode_concat(s@.take(k), seq![s@[k]]);
            assert(s@.take(k) + seq![s@[k]] =~= s@.take(k + 1));
            assert(encode_utf8(seq![s@[k]]).len() > 0);
        }
        lemma_longest_prefix(s@, s@.len() as int, k, max as int);
        reveal_strlit("\u{2026}");
        assert(kept@ + "\u{2026}"@ =~= kept@.push('\u{2026}'));
    }
    kept.to_owned().concat("\u{2026}")
}

/// A text that is there is taken as it is.
pub proof fn law_contents_are_the_text(s: &str)
    ensures
        contents(Some(s)) == Some(s@),
        contents(None) is None,
{
}

} // verus!
