//! Text as sequences of characters: the few string operations the rest of
//! the library is built from, each with its meaning as a spec function.
use vstd::prelude::*;

verus! {

/// `String::push` appends one character.
pub assume_specification[ String::push ](s: &mut String, c: char)
    ensures
        final(s)@ == old(s)@.push(c),
;

/// What `str::to_lowercase` makes of a text: the Unicode lowercase mapping,
/// which may change the number of characters.
pub uninterp spec fn unicode_lower(s: Seq<char>) -> Seq<char>;

/// `str::to_lowercase`: the result is named, not described, because the
/// mapping is a table of the Unicode standard.
#[verifier::external_body]
pub(crate) fn to_lower(s: &str) -> (r: String)
    ensures
        r@ == unicode_lower(s@),
{
    s.to_lowercase()
}

/// What `format!` makes of a text with `{:?}`: the text in double quotes,
/// with the characters that would not show escaped.
pub uninterp spec fn debug_text(s: Seq<char>) -> Seq<char>;

/// `format!("{:?}", ..)` of a string: the result is named, because which
/// characters are escaped is a table of the standard library.
#[verifier::external_body]
pub(crate) fn quote(s: &str) -> (r: String)
    ensures
        r@ == debug_text(s@),
{
    format!("{s:?}")
}

/// The Unicode `White_Space` property, which is what trimming removes.
pub open spec fn is_white(c: char) -> bool {
    ||| '\u{9}' <= c <= '\u{d}'
    ||| c == ' '
    ||| c == '\u{85}'
    ||| c == '\u{a0}'
    ||| c == '\u{1680}'
    ||| '\u{2000}' <= c <= '\u{200a}'
    ||| c == '\u{2028}'
    ||| c == '\u{2029}'
    ||| c == '\u{202f}'
    ||| c == '\u{205f}'
    ||| c == '\u{3000}'
}

fn white(c: char) -> (r: bool)
    ensures
        r == is_white(c),
{
    ('\u{9}' <= c && c <= '\u{d}') || c == ' ' || c == '\u{85}' || c == '\u{a0}' || c == '\u{1680}'
        || ('\u{2000}' <= c && c <= '\u{200a}') || c == '\u{2028}' || c == '\u{2029}' || c
        == '\u{202f}' || c == '\u{205f}' || c == '\u{3000}'
}

/// `s` without its leading white space.
pub open spec fn trim_front(s: Seq<char>) -> Seq<char>
    decreases s.len(),
{
    if s.len() > 0 && is_white(s[0]) {
        trim_front(s.drop_first())
    } else {
        s
    }
}

/// `s` without its trailing white space.
pub open spec fn trim_back(s: Seq<char>) -> Seq<char>
    decreases s.len(),
{
    if s.len() > 0 && is_white(s.last()) {
        trim_back(s.drop_last())
    } else {
        s
    }
}

/// `s` without its leading and trailing white space.
pub open spec fn trimmed(s: Seq<char>) -> Seq<char> {
    trim_back(trim_front(s))
}

proof fn trimmed_ends(s: Seq<char>)
    ensures
        trim_front(s).len() > 0 ==> !is_white(trim_front(s)[0]),
        trim_back(s).len() > 0 ==> !is_white(trim_back(s).last()),
        trim_back(s).is_prefix_of(s),
    decreases s.len(),
{
    if s.len() > 0 && is_white(s[0]) {
        trimmed_ends(s.drop_first());
    }
    if s.len() > 0 && is_white(s.last()) {
        trimmed_ends(s.drop_last());
        assert(trim_back(s.drop_last()).is_prefix_of(s.drop_last()));
    }
}

/// Trimming a text that was trimmed changes nothing.
pub proof fn trimming_twice(s: Seq<char>)
    ensures
        trimmed(trimmed(s)) == trimmed(s),
{
    let front = trim_front(s);
    let t = trim_back(front);
    trimmed_ends(s);
    trimmed_ends(front);
    if t.len() > 0 {
        assert(t[0] == front[0]);
    }
}

/// The characters of `s`.
pub fn chars_of(s: &str) -> (r: Vec<char>)
    ensures
        r@ == s@,
{
    let mut out: Vec<char> = Vec::new();
    for c in it: s.chars()
        invariant
            it.seq() == s@,
            out@ == s@.take(it.index() as int),
    {
        out.push(c);
    }
    assert(s@.take(s@.len() as int) == s@);
    out
}

/// The string with these characters, from `from` up to `to`.
pub fn string_of(chars: &Vec<char>, from: usize, to: usize) -> (r: String)
    requires
        from <= to <= chars@.len(),
    ensures
        r@ == chars@.subrange(from as int, to as int),
{
    let mut out = String::new();
    let mut i: usize = from;
    while i < to
        invariant
            from <= i <= to <= chars@.len(),
            out@ == chars@.subrange(from as int, i as int),
        decreases to - i,
    {
        out.push(chars[i]);
        i += 1;
        assert(chars@.subrange(from as int, i as int) == chars@.subrange(
            from as int,
            i - 1,
        ).push(chars@[i - 1]));
    }
    out
}

/// `s` without its leading and trailing white space.
pub fn trim(s: &str) -> (r: String)
    ensures
        r@ == trimmed(s@),
{
    let chars = chars_of(s);
    let mut from: usize = 0;
    assert(s@.skip(0) == s@);
    while from < chars.len() && white(chars[from])
        invariant
            from <= chars@.len(),
            chars@ == s@,
            trim_front(s@) == trim_front(s@.skip(from as int)),
        decreases chars@.len() - from,
    {
        assert(s@.skip(from as int).drop_first() == s@.skip(from + 1));
        from += 1;
    }
    let ghost front = s@.skip(from as int);
    assert(trim_front(s@) == front);
    let mut to: usize = chars.len();
    assert(front.take(to - from) == front);
    while to > from && white(chars[to - 1])
        invariant
            from <= to <= chars@.len(),
            chars@ == s@,
            front == s@.skip(from as int),
            trim_back(front) == trim_back(front.take(to - from)),
        decreases to,
    {
        assert(front.take(to - from).drop_last() == front.take(to - from - 1));
        to -= 1;
    }
    assert(s@.subrange(from as int, to as int) == front.take(to - from));
    string_of(&chars, from, to)
}

/// The first `n` characters of `s`, or all of them where there are fewer.
pub open spec fn first_chars(s: Seq<char>, n: int) -> Seq<char> {
    if s.len() <= n {
        s
    } else {
        s.take(n)
    }
}

/// The first `n` characters of `s`, or all of them where there are fewer.
pub fn take_chars(s: &str, n: usize) -> (r: String)
    ensures
        r@ == first_chars(s@, n as int),
{
    let len: usize = s.unicode_len();
    if len <= n {
        s.to_owned()
    } else {
        s.substring_char(0, n).to_owned()
    }
}

/// The number of bytes that `s` takes in UTF-8.
pub open spec fn byte_len(s: Seq<char>) -> int {
    vstd::utf8::encode_utf8(s).len() as int
}

/// The number of bytes that `s` takes in UTF-8.
pub fn bytes_in(s: &str) -> (r: usize)
    ensures
        r == byte_len(s@),
{
    s.as_bytes().len()
}

/// The same text?
pub fn same(a: &str, b: &str) -> (r: bool)
    ensures
        r == (a@ == b@),
{
    a.to_owned() == b.to_owned()
}

/// Does `s` start with `prefix`?
pub fn starts_with(s: &str, prefix: &str) -> (r: bool)
    ensures
        r == prefix@.is_prefix_of(s@),
{
    let n: usize = prefix.unicode_len();
    if n > s.unicode_len() {
        return false;
    }
    let head = s.substring_char(0, n);
    let r = same(head, prefix);
    assert(s@.subrange(0, n as int) == s@.take(n as int));
    assert(prefix@.is_prefix_of(s@) <==> s@.take(n as int) == prefix@);
    r
}

/// `needle` stands in `s` at position `i`.
pub open spec fn stands_at(s: Seq<char>, needle: Seq<char>, i: int) -> bool {
    0 <= i && i + needle.len() <= s.len() && s.subrange(i, i + needle.len()) == needle
}

/// `needle` stands somewhere in `s`.
pub open spec fn occurs(s: Seq<char>, needle: Seq<char>) -> bool {
    exists|i: int| stands_at(s, needle, i)
}

/// Does `needle` stand somewhere in `s`?
pub fn contains(s: &str, needle: &str) -> (r: bool)
    ensures
        r == occurs(s@, needle@),
{
    let n: usize = needle.unicode_len();
    let len: usize = s.unicode_len();
    if n > len {
        return false;
    }
    let mut i: usize = 0;
    while i <= len - n
        invariant
            n == needle@.len(),
            len == s@.len(),
            n <= len,
            i <= len - n + 1,
            forall|j: int| 0 <= j < i ==> !stands_at(s@, needle@, j),
        decreases len - n + 1 - i,
    {
        if same(s.substring_char(i, i + n), needle) {
            assert(stands_at(s@, needle@, i as int));
            return true;
        }
        if i == len - n {
            assert forall|j: int| !stands_at(s@, needle@, j) by {
                if 0 <= j < i {
                }
            }
            return false;
        }
        i += 1;
    }
    false
}

/// ASCII capitals made small, every other character kept.
pub open spec fn ascii_lower_char(c: char) -> char {
    if 'A' <= c <= 'Z' {
        (c as u32 + 32) as char
    } else {
        c
    }
}

/// `s` with its ASCII capitals made small.
pub open spec fn ascii_lower(s: Seq<char>) -> Seq<char> {
    s.map_values(|c: char| ascii_lower_char(c))
}

fn lower_char(c: char) -> (r: char)
    ensures
        r == ascii_lower_char(c),
{
    if 'A' <= c && c <= 'Z' {
        (c as u8 + 32) as char
    } else {
        c
    }
}

/// `s` with its ASCII capitals made small.
pub fn to_ascii_lower(s: &str) -> (r: String)
    ensures
        r@ == ascii_lower(s@),
{
    let chars = chars_of(s);
    let mut out = String::new();
    let mut i: usize = 0;
    while i < chars.len()
        invariant
            i <= chars@.len(),
            chars@ == s@,
            out@ == ascii_lower(s@.take(i as int)),
        decreases chars@.len() - i,
    {
        out.push(lower_char(chars[i]));
        i += 1;
        assert(ascii_lower(s@.take(i as int)) == ascii_lower(s@.take(i - 1)).push(
            ascii_lower_char(s@[i - 1]),
        ));
    }
    assert(s@.take(s@.len() as int) == s@);
    out
}

/// The character of a decimal digit.
pub open spec fn digit_char(d: int) -> char {
    (48 + d) as char
}

/// `n` written in decimal, without leading zeros.
pub open spec fn decimal(n: nat) -> Seq<char>
    decreases n,
{
    if n < 10 {
        seq![digit_char(n as int)]
    } else {
        decimal(n / 10).push(digit_char((n % 10) as int))
    }
}

/// An integer written in decimal, with a minus sign where it is negative.
pub open spec fn signed_decimal(n: int) -> Seq<char> {
    if n < 0 {
        seq!['-'] + decimal((-n) as nat)
    } else {
        decimal(n as nat)
    }
}

/// `n` written in decimal.
pub fn decimal_of(n: u64) -> (r: String)
    ensures
        r@ == decimal(n as nat),
    decreases n,
{
    let digit: char = (48 + (n % 10) as u8) as char;
    if n < 10 {
        let mut out = String::new();
        out.push(digit);
        assert(out@ == seq![digit_char(n as int)]);
        out
    } else {
        let mut out = decimal_of(n / 10);
        out.push(digit);
        out
    }
}

/// `n` written in decimal, with a minus sign where it is negative.
pub fn signed_decimal_of(n: i64) -> (r: String)
    ensures
        r@ == signed_decimal(n as int),
{
    if n >= 0 {
        decimal_of(n as u64)
    } else {
        let mut out = String::new();
        out.push('-');
        let size: u64 = if n == i64::MIN {
            9223372036854775808
        } else {
            (-n) as u64
        };
        out.append(decimal_of(size).as_str());
        assert(out@ == seq!['-'] + decimal((-n) as nat));
        out
    }
}

/// A decimal digit.
pub open spec fn is_digit(c: char) -> bool {
    '0' <= c <= '9'
}

/// The number that these digits spell, most significant first.
pub open spec fn digits_value(s: Seq<char>) -> nat
    decreases s.len(),
{
    if s.len() == 0 {
        0
    } else {
        digits_value(s.drop_last()) * 10 + (s.last() as u32 - 48) as nat
    }
}

/// Nothing but digits.
pub open spec fn all_digits(s: Seq<char>) -> bool {
    forall|i: int| 0 <= i < s.len() ==> is_digit(#[trigger] s[i])
}

/// A text without the plus sign it starts with, if it does.
pub open spec fn without_plus(s: Seq<char>) -> Seq<char> {
    if s.len() > 0 && s[0] == '+' {
        s.drop_first()
    } else {
        s
    }
}

/// The `u64` that a text spells in decimal: digits, and a plus sign before
/// them if it likes.
pub open spec fn parsed_u64(s: Seq<char>) -> Option<u64> {
    let digits = without_plus(s);
    if digits.len() > 0 && all_digits(digits) && digits_value(digits) <= u64::MAX {
        Some(digits_value(digits) as u64)
    } else {
        None
    }
}

proof fn prefix_value_is_less(s: Seq<char>, n: int)
    requires
        0 <= n <= s.len(),
        all_digits(s),
    ensures
        digits_value(s.take(n)) <= digits_value(s),
    decreases s.len(),
{
    if n == s.len() {
        assert(s.take(n) == s);
    } else {
        let rest = s.drop_last();
        assert forall|i: int| 0 <= i < rest.len() implies is_digit(#[trigger] rest[i]) by {
            assert(rest[i] == s[i]);
        }
        prefix_value_is_less(rest, n);
        assert(rest.take(n) == s.take(n));
    }
}

/// The `u64` that a text spells in decimal.
pub fn parse_u64(s: &str) -> (r: Option<u64>)
    ensures
        r == parsed_u64(s@),
{
    let chars = chars_of(s);
    let from: usize = if chars.len() > 0 && chars[0] == '+' {
        1
    } else {
        0
    };
    let ghost digits = s@.skip(from as int);
    assert(from == 1 ==> digits == s@.drop_first());
    assert(from == 0 ==> digits == s@);
    if chars.len() == from {
        return None;
    }
    let mut n: u64 = 0;
    let mut i: usize = from;
    assert(digits.take(0) == Seq::<char>::empty());
    while i < chars.len()
        invariant
            from <= i <= chars@.len(),
            chars@ == s@,
            digits == without_plus(s@),
            digits == s@.skip(from as int),
            n == digits_value(digits.take(i - from)),
            forall|j: int| 0 <= j < i - from ==> is_digit(#[trigger] digits[j]),
        decreases chars@.len() - i,
    {
        let c = chars[i];
        let ghost k = i - from;
        assert(digits[k] == c);
        if !('0' <= c && c <= '9') {
            assert(!is_digit(digits[k]));
            assert(!all_digits(digits));
            return None;
        }
        let d: u64 = (c as u8 - 48) as u64;
        assert(digits.take(k + 1).drop_last() == digits.take(k));
        assert(digits.take(k + 1).last() == c);
        assert(digits_value(digits.take(k + 1)) == n * 10 + d);
        if n > (u64::MAX - d) / 10 {
            assert(n * 10 + d > u64::MAX);
            proof {
                if all_digits(digits) {
                    prefix_value_is_less(digits, k + 1);
                }
            }
            return None;
        }
        n = n * 10 + d;
        i += 1;
    }
    assert(digits.take(i - from) == digits);
    Some(n)
}

proof fn decimal_digits(n: nat)
    ensures
        decimal(n).len() > 0,
        all_digits(decimal(n)),
        digits_value(decimal(n)) == n,
    decreases n,
{
    if n < 10 {
        reveal_with_fuel(digits_value, 2);
        assert(decimal(n).drop_last() == Seq::<char>::empty());
        assert(decimal(n).last() == digit_char(n as int));
    } else {
        decimal_digits(n / 10);
        let head = decimal(n / 10);
        let last = digit_char((n % 10) as int);
        assert(decimal(n) == head.push(last));
        assert(head.push(last).drop_last() == head);
        assert forall|i: int| 0 <= i < decimal(n).len() implies is_digit(
            #[trigger] decimal(n)[i],
        ) by {
            if i < head.len() {
                assert(decimal(n)[i] == head[i]);
            }
        }
    }
}

/// A number written in decimal reads back as itself.
pub proof fn a_number_reads_back(n: u64)
    ensures
        parsed_u64(decimal(n as nat)) == Some(n),
{
    decimal_digits(n as nat);
    assert(is_digit(decimal(n as nat)[0]));
}

/// `a` comes before `b`, or is `b`, in the order of code points (which is
/// the order of the UTF-8 bytes).
pub open spec fn text_le(a: Seq<char>, b: Seq<char>) -> bool
    decreases a.len(),
{
    if a.len() == 0 {
        true
    } else if b.len() == 0 {
        false
    } else if a[0] == b[0] {
        text_le(a.drop_first(), b.drop_first())
    } else {
        a[0] < b[0]
    }
}

/// Does `a` come before `b`, or equal it?
pub fn le(a: &str, b: &str) -> (r: bool)
    ensures
        r == text_le(a@, b@),
{
    let x = chars_of(a);
    let y = chars_of(b);
    let mut i: usize = 0;
    assert(a@.skip(0) == a@ && b@.skip(0) == b@);
    while i < x.len() && i < y.len() && x[i] == y[i]
        invariant
            x@ == a@,
            y@ == b@,
            i <= x@.len(),
            i <= y@.len(),
            text_le(a@, b@) == text_le(a@.skip(i as int), b@.skip(i as int)),
        decreases x@.len() - i,
    {
        assert(a@.skip(i as int).drop_first() == a@.skip(i + 1));
        assert(b@.skip(i as int).drop_first() == b@.skip(i + 1));
        i += 1;
    }
    if i >= x.len() {
        true
    } else if i >= y.len() {
        false
    } else {
        x[i] < y[i]
    }
}

/// The order of texts is total.
pub proof fn text_le_total(a: Seq<char>, b: Seq<char>)
    ensures
        text_le(a, b) || text_le(b, a),
    decreases a.len(),
{
    if a.len() > 0 && b.len() > 0 && a[0] == b[0] {
        text_le_total(a.drop_first(), b.drop_first());
    }
}

/// The order of texts is transitive.
pub proof fn text_le_transitive(a: Seq<char>, b: Seq<char>, c: Seq<char>)
    requires
        text_le(a, b),
        text_le(b, c),
    ensures
        text_le(a, c),
    decreases a.len(),
{
    if a.len() > 0 && b.len() > 0 && c.len() > 0 && a[0] == b[0] && b[0] == c[0] {
        text_le_transitive(a.drop_first(), b.drop_first(), c.drop_first());
    }
}

/// The same optional text again.
pub fn copy_opt(o: &Option<String>) -> (r: Option<String>)
    ensures
        r == *o,
{
    match o {
        Some(s) => Some(s.clone()),
        None => None,
    }
}

/// The view of an optional text.
pub open spec fn opt_view(o: Option<String>) -> Option<Seq<char>> {
    match o {
        Some(s) => Some(s@),
        None => None,
    }
}

/// The view of an optional borrowed text.
pub open spec fn opt_str(o: Option<&str>) -> Option<Seq<char>> {
    match o {
        Some(s) => Some(s@),
        None => None,
    }
}

/// The text that was really given: not missing, and not blank. White space
/// around it does not count.
pub open spec fn given(o: Option<Seq<char>>) -> Option<Seq<char>> {
    match o {
        Some(s) if trimmed(s).len() > 0 => Some(trimmed(s)),
        _ => None,
    }
}

/// The text that was really given, without the white space around it.
pub fn given_text(o: &Option<String>) -> (r: Option<String>)
    ensures
        opt_view(r) == given(opt_view(*o)),
{
    match o {
        Some(s) => {
            let t = trim(s.as_str());
            if t.as_str().unicode_len() > 0 {
                Some(t)
            } else {
                None
            }
        },
        None => None,
    }
}

/// The views of a list of texts.
pub open spec fn views(list: Seq<String>) -> Seq<Seq<char>> {
    list.map_values(|s: String| s@)
}

/// Is `s` one of these texts?
pub(crate) fn lists(list: &Vec<String>, s: &str) -> (r: bool)
    ensures
        r == views(list@).contains(s@),
{
    let mut i: usize = 0;
    while i < list.len()
        invariant
            i <= list@.len(),
            forall|j: int| 0 <= j < i ==> views(list@)[j] != s@,
        decreases list@.len() - i,
    {
        if same(list[i].as_str(), s) {
            assert(views(list@)[i as int] == s@);
            return true;
        }
        i += 1;
    }
    false
}

/// The same list of texts again.
pub fn copy_list(list: &Vec<String>) -> (r: Vec<String>)
    ensures
        r@ == list@,
{
    let mut out: Vec<String> = Vec::new();
    let mut i: usize = 0;
    while i < list.len()
        invariant
            i <= list@.len(),
            out@ == list@.take(i as int),
        decreases list@.len() - i,
    {
        out.push(list[i].clone());
        i += 1;
        assert(out@ == list@.take(i as int));
    }
    assert(list@.take(i as int) == list@);
    out
}

// ------------------------------------------------------------- laws

/// Trimming takes the white space off both ends and nothing else: where a text
/// is white space, then something that neither starts nor ends with white
/// space, then white space, that something is what is left.
pub proof fn trimming_leaves_the_middle(front: Seq<char>, s: Seq<char>, back: Seq<char>)
    requires
        forall|i: int| 0 <= i < front.len() ==> is_white(#[trigger] front[i]),
        forall|i: int| 0 <= i < back.len() ==> is_white(#[trigger] back[i]),
        s.len() > 0 ==> !is_white(s[0]) && !is_white(s.last()),
    ensures
        trimmed(front + s + back) == s,
    decreases front.len() + back.len(),
{
    if front.len() > 0 {
        let whole = front + s + back;
        assert(whole[0] == front[0]);
        assert(whole.drop_first() =~= front.drop_first() + s + back);
        trimming_leaves_the_middle(front.drop_first(), s, back);
    } else {
        assert(front + s + back =~= s + back);
        if s.len() > 0 {
            assert((s + back)[0] == s[0]);
            trimming_the_back(s, back);
        } else if back.len() > 0 {
            assert(s + back =~= back);
            assert(back.drop_first() =~= front + s + back.drop_first());
            trimming_leaves_the_middle(front, s, back.drop_first());
        } else {
            assert(s + back =~= s);
        }
    }
}

proof fn trimming_the_back(s: Seq<char>, back: Seq<char>)
    requires
        forall|i: int| 0 <= i < back.len() ==> is_white(#[trigger] back[i]),
        s.len() > 0 ==> !is_white(s.last()),
    ensures
        trim_back(s + back) == s,
    decreases back.len(),
{
    if back.len() > 0 {
        assert((s + back).last() == back.last());
        assert((s + back).drop_last() =~= s + back.drop_last());
        trimming_the_back(s, back.drop_last());
    } else {
        assert(s + back =~= s);
    }
}

/// A text is blank, with nothing left of it after trimming, if and only if it
/// is white space throughout.
pub proof fn only_white_space_is_blank(s: Seq<char>)
    ensures
        trimmed(s).len() == 0 <==> forall|i: int| 0 <= i < s.len() ==> is_white(#[trigger] s[i]),
    decreases s.len(),
{
    if s.len() > 0 {
        if is_white(s[0]) {
            only_white_space_is_blank(s.drop_first());
            if forall|i: int| 0 <= i < s.drop_first().len() ==> is_white(#[trigger] s.drop_first()[i]) {
                assert forall|i: int| 0 <= i < s.len() implies is_white(#[trigger] s[i]) by {
                    if i > 0 {
                        assert(s[i] == s.drop_first()[i - 1]);
                    }
                }
            }
        } else {
            trimmed_ends(s);
            a_solid_start_stays(s);
        }
    }
}

proof fn a_solid_start_stays(s: Seq<char>)
    requires
        s.len() > 0,
        !is_white(s[0]),
    ensures
        trim_back(s).len() > 0,
    decreases s.len(),
{
    if is_white(s.last()) {
        a_solid_start_stays(s.drop_last());
    }
}

/// Spaces, tabs and line breaks are white space; no visible ASCII character
/// and no other control character is.
pub proof fn what_is_white_in_ascii(c: char)
    requires
        (c as u32) < 128,
    ensures
        is_white(c) <==> c as u32 == 9 || c as u32 == 10 || c as u32 == 11 || c as u32 == 12
            || c as u32 == 13 || c as u32 == 32,
{
}

/// The first characters of a text are those: a start of it, whole where it is
/// short enough and as long as allowed where it is not.
pub proof fn a_cut_text_is_a_start(s: Seq<char>, n: int)
    requires
        n >= 0,
    ensures
        first_chars(s, n).is_prefix_of(s),
        s.len() <= n ==> first_chars(s, n) == s,
        s.len() > n ==> first_chars(s, n).len() == n,
{
}

/// A text holds another if and only if it is something, then the other, then
/// something.
pub proof fn holding_is_standing_inside(s: Seq<char>, needle: Seq<char>)
    ensures
        occurs(s, needle) <==> exists|before: Seq<char>, after: Seq<char>| #[trigger]
            (before + needle + after) == s,
{
    if occurs(s, needle) {
        let i = choose|i: int| stands_at(s, needle, i);
        let before = s.take(i);
        let after = s.skip(i + needle.len());
        assert(s.subrange(i, i + needle.len()) == needle);
        assert(before + needle + after =~= s);
    }
    if exists|before: Seq<char>, after: Seq<char>| #[trigger] (before + needle + after) == s {
        let (before, after) = choose|before: Seq<char>, after: Seq<char>| #[trigger]
            (before + needle + after) == s;
        let n = before.len() as int;
        assert(s.subrange(n, n + needle.len()) =~= needle);
        assert(stands_at(s, needle, n));
    }
}

/// Lowering the case keeps the length, touches the capital letters of ASCII
/// and nothing else, and looks at each character for itself.
pub proof fn lowering_touches_capitals_only(a: Seq<char>, b: Seq<char>, i: int)
    ensures
        ascii_lower(a + b) == ascii_lower(a) + ascii_lower(b),
        ascii_lower(a).len() == a.len(),
        0 <= i < a.len() && 65 <= a[i] as u32 <= 90 ==> ascii_lower(a)[i] as u32 == a[i] as u32
            + 32,
        0 <= i < a.len() && !(65 <= a[i] as u32 <= 90) ==> ascii_lower(a)[i] == a[i],
{
    assert(ascii_lower(a + b) =~= ascii_lower(a) + ascii_lower(b));
}

/// A number is written in base ten, the last digit last: ten times a number,
/// and a digit more, is written as the number and the digit behind it.
pub proof fn numbers_are_written_in_base_ten(n: nat, d: nat)
    requires
        d < 10,
    ensures
        decimal(d).len() == 1,
        decimal(d)[0] as u32 == 48 + d,
        n > 0 ==> decimal(10 * n + d) == decimal(n) + decimal(d),
{
    if n > 0 {
        assert((10 * n + d) / 10 == n && (10 * n + d) % 10 == d);
        assert(decimal(10 * n + d) =~= decimal(n) + decimal(d));
    }
}

/// A negative number is written as the number without its sign behind a dash;
/// any other as it is.
pub proof fn negative_numbers_have_a_dash(n: nat)
    ensures
        signed_decimal(n as int) == decimal(n),
        n > 0 ==> signed_decimal(-(n as int)) == seq!['-'] + decimal(n),
{
}

/// Two different numbers are written differently.
pub proof fn numbers_are_told_apart(m: nat, n: nat)
    requires
        decimal(m) == decimal(n),
    ensures
        m == n,
{
    decimal_digits(m);
    decimal_digits(n);
}

/// What reads as a number: digits, at least one, with at most one plus sign in
/// front, and no more than 64 bits can hold. A digit behind a number makes it
/// ten times as large, and the digit more.
pub proof fn digits_read_as_a_number(s: Seq<char>, c: char)
    requires
        all_digits(s),
        48 <= c as u32 <= 57,
    ensures
        digits_value(s.push(c)) == 10 * digits_value(s) + (c as u32 - 48),
        digits_value(Seq::empty()) == 0,
        s.len() > 0 && digits_value(s) <= u64::MAX ==> parsed_u64(s) == Some(
            digits_value(s) as u64,
        ) && parsed_u64(seq!['+'] + s) == Some(digits_value(s) as u64),
        digits_value(s) > u64::MAX ==> parsed_u64(s) is None,
        parsed_u64(Seq::empty()) is None,
        parsed_u64(seq!['+']) is None,
{
    assert(s.push(c).drop_last() =~= s);
    if s.len() > 0 {
        assert(is_digit(s[0]));
        assert((seq!['+'] + s).drop_first() =~= s);
    }
    assert(seq!['+'].drop_first() =~= Seq::<char>::empty());
}

/// A text with anything in it but digits, behind an optional plus sign, does
/// not read as a number.
pub proof fn other_text_is_no_number(s: Seq<char>, i: int)
    requires
        0 <= i < s.len(),
        !(48 <= s[i] as u32 <= 57),
        i > 0 || s[i] != '+',
    ensures
        parsed_u64(s) is None,
{
    if s[0] == '+' {
        assert(s.drop_first()[i - 1] == s[i]);
    } else {
        assert(!is_digit(s[i]));
    }
}

/// Texts are ordered by the first character in which they differ; a text comes
/// before every longer one that it starts.
pub proof fn the_first_difference_decides(
    common: Seq<char>,
    x: char,
    y: char,
    a: Seq<char>,
    b: Seq<char>,
)
    requires
        (x as u32) < (y as u32),
    ensures
        text_le(common + seq![x] + a, common + seq![y] + b),
        !text_le(common + seq![y] + b, common + seq![x] + a),
        text_le(common, common + a),
        a.len() > 0 ==> !text_le(common + a, common),
    decreases common.len(),
{
    let p = common + seq![x] + a;
    let q = common + seq![y] + b;
    if common.len() > 0 {
        let rest = common.drop_first();
        the_first_difference_decides(rest, x, y, a, b);
        assert(p.drop_first() =~= rest + seq![x] + a);
        assert(q.drop_first() =~= rest + seq![y] + b);
        assert((common + a).drop_first() =~= rest + a);
        assert(p[0] == common[0] && q[0] == common[0] && (common + a)[0] == common[0]);
    } else {
        assert(p[0] == x && q[0] == y);
        assert(common + a =~= a);
    }
}

/// The order of texts tells every two of them apart.
pub proof fn text_le_antisymmetric(a: Seq<char>, b: Seq<char>)
    requires
        text_le(a, b),
        text_le(b, a),
    ensures
        a == b,
    decreases a.len(),
{
    if a.len() > 0 && b.len() > 0 {
        text_le_antisymmetric(a.drop_first(), b.drop_first());
        assert(a =~= seq![a[0]] + a.drop_first());
        assert(b =~= seq![b[0]] + b.drop_first());
    } else {
        assert(a =~= b);
    }
}

/// What was given is a text that says something, without the white space
/// around it; a blank text was not given, nor was none.
pub proof fn a_blank_is_not_given(s: Seq<char>)
    ensures
        given(None) is None,
        (forall|i: int| 0 <= i < s.len() ==> is_white(#[trigger] s[i])) <==> given(Some(s)) is None,
        given(Some(s)) is Some ==> given(Some(s)) == Some(trimmed(s)),
{
    only_white_space_is_blank(s);
}

/// Two different numbers are written differently, signs included.
pub proof fn signed_numbers_are_told_apart(m: int, n: int)
    requires
        signed_decimal(m) == signed_decimal(n),
    ensures
        m == n,
{
    let a = if m < 0 {
        (-m) as nat
    } else {
        m as nat
    };
    let b = if n < 0 {
        (-n) as nat
    } else {
        n as nat
    };
    decimal_digits(a);
    decimal_digits(b);
    assert(is_digit(decimal(a)[0]) && is_digit(decimal(b)[0]));
    if m < 0 {
        assert(signed_decimal(m)[0] == '-');
        assert(signed_decimal(m).drop_first() =~= decimal(a));
    }
    if n < 0 {
        assert(signed_decimal(n)[0] == '-');
        assert(signed_decimal(n).drop_first() =~= decimal(b));
    }
}

/// Beyond ASCII, the spaces and line breaks of Unicode are white space, and no
/// other character is.
pub proof fn what_is_white_beyond_ascii(c: char)
    requires
        (c as u32) >= 128,
    ensures
        is_white(c) <==> c as u32 == 0x85 || c as u32 == 0xa0 || c as u32 == 0x1680 || 0x2000 <= c
            as u32 <= 0x200a || c as u32 == 0x2028 || c as u32 == 0x2029 || c as u32 == 0x202f || c
            as u32 == 0x205f || c as u32 == 0x3000,
{
}

} // verus!
