//! Text building blocks: decimal numbers, ASCII case, joining, and the bound on
//! the length of a directive's reasoning.

use vstd::prelude::*;

verus! {

/// `String::push` appends one character at the end of the string.
pub assume_specification[ String::push ](s: &mut String, c: char)
    ensures
        final(s)@ == old(s)@.push(c),
;

/// `str::to_ascii_lowercase` maps the letters 'A' to 'Z' to 'a' to 'z' and leaves every
/// other character as it is.
pub assume_specification[ str::to_ascii_lowercase ](s: &str) -> (r: String)
    ensures
        r@ == ascii_lowercase(s@),
;

/// The characters of `str::to_uppercase`: the Unicode uppercase of a text.
pub uninterp spec fn uppercase(s: Seq<char>) -> Seq<char>;

/// The characters of `str::to_lowercase`: the Unicode lowercase of a text.
pub uninterp spec fn lowercase(s: Seq<char>) -> Seq<char>;

/// `str::to_uppercase` depends on the text alone; on ASCII text it is the ASCII mapping.
/// The full Unicode mapping is not spelled out.
pub assume_specification[ str::to_uppercase ](s: &str) -> (r: String)
    ensures
        r@ == uppercase(s@),
        vstd::utf8::is_ascii_chars(s@) ==> r@ == ascii_uppercase(s@),
;

/// `str::to_lowercase` depends on the text alone; on ASCII text it is the ASCII mapping.
/// The full Unicode mapping is not spelled out.
pub assume_specification[ str::to_lowercase ](s: &str) -> (r: String)
    ensures
        r@ == lowercase(s@),
        vstd::utf8::is_ascii_chars(s@) ==> r@ == ascii_lowercase(s@),
;

// ---------------------------------------------------------------------------
// ASCII case
// ---------------------------------------------------------------------------

/// The lowercase of an ASCII letter; any other character is its own lowercase.
pub open spec fn ascii_lower(c: char) -> char {
    if 'A' <= c && c <= 'Z' {
        ((c as u8) + 32) as u8 as char
    } else {
        c
    }
}

/// The uppercase of an ASCII letter; any other character is its own uppercase.
pub open spec fn ascii_upper(c: char) -> char {
    if 'a' <= c && c <= 'z' {
        ((c as u8) - 32) as u8 as char
    } else {
        c
    }
}

pub open spec fn ascii_lowercase(s: Seq<char>) -> Seq<char> {
    Seq::new(s.len(), |i: int| ascii_lower(s[i]))
}

pub open spec fn ascii_uppercase(s: Seq<char>) -> Seq<char> {
    Seq::new(s.len(), |i: int| ascii_upper(s[i]))
}

/// Two texts are equal up to ASCII case.
pub open spec fn eq_ignoring_ascii_case(a: Seq<char>, b: Seq<char>) -> bool {
    ascii_lowercase(a) == ascii_lowercase(b)
}

/// Whether two texts are equal up to ASCII case.
pub fn same_ignoring_ascii_case(a: &str, b: &str) -> (r: bool)
    ensures
        r == eq_ignoring_ascii_case(a@, b@),
{
    let x = a.to_ascii_lowercase();
    let y = b.to_ascii_lowercase();
    same_text(x.as_str(), y.as_str())
}

// ---------------------------------------------------------------------------
// Characters
// ---------------------------------------------------------------------------

/// The characters of a text, one by one.
pub fn chars_of(s: &str) -> (r: Vec<char>)
    ensures
        r@ == s@,
{
    let mut out: Vec<char> = Vec::new();
    for c in it: s.chars()
        invariant
            it.seq() == s@,
            out@ == s@.take(it.index()),
    {
        out.push(c);
        assert(s@.take(it.index() + 1) =~= s@.take(it.index()).push(c));
    }
    assert(s@.take(s@.len() as int) =~= s@);
    out
}

/// Whether two texts have the same characters.
pub fn same_text(a: &str, b: &str) -> (r: bool)
    ensures
        r == (a@ == b@),
{
    let x = chars_of(a);
    let y = chars_of(b);
    if x.len() != y.len() {
        return false;
    }
    let mut i: usize = 0;
    while i < x.len()
        invariant
            i <= x.len(),
            x.len() == y.len(),
            x@ == a@,
            y@ == b@,
            forall|j: int| 0 <= j < i ==> x@[j] == y@[j],
        decreases x.len() - i,
    {
        if x[i] != y[i] {
            return false;
        }
        i += 1;
    }
    assert(a@ =~= b@);
    true
}

/// The text made of the characters from `from` up to `to`.
pub fn text_of(chars: &Vec<char>, from: usize, to: usize) -> (r: String)
    requires
        from <= to <= chars.len(),
    ensures
        r@ == chars@.subrange(from as int, to as int),
{
    let mut out = String::new();
    let mut i = from;
    while i < to
        invariant
            from <= i <= to <= chars.len(),
            out@ == chars@.subrange(from as int, i as int),
        decreases to - i,
    {
        out.push(chars[i]);
        assert(chars@.subrange(from as int, i + 1) =~= chars@.subrange(from as int, i as int).push(
            chars@[i as int],
        ));
        i += 1;
    }
    out
}

/// The first characters of a text, at most that many.
pub open spec fn first_chars(s: Seq<char>, count: nat) -> Seq<char> {
    if s.len() <= count {
        s
    } else {
        s.take(count as int)
    }
}

/// The first characters of a text, at most that many.
pub fn take_first_chars(s: &str, count: usize) -> (r: String)
    ensures
        r@ == first_chars(s@, count as nat),
{
    let chars = chars_of(s);
    if chars.len() <= count {
        assert(chars@.subrange(0, chars@.len() as int) =~= s@);
        text_of(&chars, 0, chars.len())
    } else {
        text_of(&chars, 0, count)
    }
}

// ---------------------------------------------------------------------------
// Decimal numbers
// ---------------------------------------------------------------------------

/// The character of a decimal digit.
pub open spec fn digit(d: int) -> char {
    (48 + d) as u8 as char
}

/// The decimal notation of a natural number, without leading zeros.
pub open spec fn decimal(n: nat) -> Seq<char>
    decreases n,
{
    if n < 10 {
        seq![digit(n as int)]
    } else {
        decimal(n / 10).push(digit((n % 10) as int))
    }
}

/// The decimal notation of an integer, with a leading '-' below zero.
pub open spec fn signed_decimal(n: int) -> Seq<char> {
    if n < 0 {
        seq!['-'] + decimal((-n) as nat)
    } else {
        decimal(n as nat)
    }
}

/// A number below a power of ten has at most as many digits as that power has zeros.
pub proof fn decimal_len_bound(n: nat, digits: nat)
    requires
        digits >= 1,
        n < vstd::arithmetic::power::pow(10, digits),
    ensures
        1 <= decimal(n).len() <= digits,
    decreases digits,
{
    reveal(vstd::arithmetic::power::pow);
    if n >= 10 {
        if digits == 1 {
            assert(vstd::arithmetic::power::pow(10, 1) == 10) by {
                vstd::arithmetic::power::lemma_pow1(10);
            }
        } else {
            assert(vstd::arithmetic::power::pow(10, digits) == 10
                * vstd::arithmetic::power::pow(10, (digits - 1) as nat));
            decimal_len_bound(n / 10, (digits - 1) as nat);
        }
    }
}

/// Appends the decimal notation of `n`.
pub fn push_decimal(out: &mut String, n: u64)
    ensures
        final(out)@ == old(out)@ + decimal(n as nat),
    decreases n,
{
    if n >= 10 {
        push_decimal(out, n / 10);
    }
    let d: u8 = (n % 10) as u8;
    out.push((48 + d) as char);
    proof {
        assert(final(out)@ =~= old(out)@ + decimal(n as nat));
    }
}

/// Appends the decimal notation of `n`, with its sign below zero.
pub fn push_signed(out: &mut String, n: i64)
    ensures
        final(out)@ == old(out)@ + signed_decimal(n as int),
{
    if n < 0 {
        out.push('-');
        let magnitude: u64 = (-(n as i128)) as u64;
        push_decimal(out, magnitude);
        proof {
            assert(final(out)@ =~= old(out)@ + signed_decimal(n as int));
        }
    } else {
        push_decimal(out, n as u64);
    }
}

/// The decimal notation of `n`.
pub fn decimal_text(n: u64) -> (r: String)
    ensures
        r@ == decimal(n as nat),
{
    let mut out = String::new();
    push_decimal(&mut out, n);
    assert(out@ =~= decimal(n as nat));
    out
}

/// A text led in by another.
pub fn led_in(lead: &str, text: &str) -> (r: String)
    ensures
        r@ == lead@ + text@,
{
    let mut out = String::from_str(lead);
    out.append(text);
    out
}

// ---------------------------------------------------------------------------
// Joining
// ---------------------------------------------------------------------------

/// The texts in order, with `separator` between neighbours.
pub open spec fn joined(parts: Seq<Seq<char>>, separator: Seq<char>) -> Seq<char>
    decreases parts.len(),
{
    if parts.len() == 0 {
        Seq::empty()
    } else if parts.len() == 1 {
        parts[0]
    } else {
        joined(parts.drop_last(), separator) + separator + parts.last()
    }
}

/// The views of a sequence of strings.
pub open spec fn views(parts: Seq<String>) -> Seq<Seq<char>> {
    Seq::new(parts.len(), |i: int| parts[i]@)
}

/// A copy of an optional text.
pub fn clone_text(s: &Option<String>) -> (r: Option<String>)
    ensures
        r == *s,
{
    match s {
        Some(t) => Some(t.clone()),
        None => None,
    }
}

/// A copy of a list of texts.
pub fn clone_texts(parts: &Vec<String>) -> (r: Vec<String>)
    ensures
        r@ == parts@,
{
    let mut out: Vec<String> = Vec::new();
    let mut i: usize = 0;
    while i < parts.len()
        invariant
            i <= parts.len(),
            out@ == parts@.take(i as int),
        decreases parts.len() - i,
    {
        out.push(parts[i].clone());
        assert(parts@.take(i + 1) =~= parts@.take(i as int).push(parts@[i as int]));
        i += 1;
    }
    assert(parts@.take(i as int) =~= parts@);
    out
}

/// Joins the first `count` of the given texts.
pub fn join_first(parts: &Vec<String>, count: usize, separator: &str) -> (r: String)
    requires
        count <= parts.len(),
    ensures
        r@ == joined(views(parts@).take(count as int), separator@),
{
    let mut out = String::new();
    let mut i: usize = 0;
    while i < count
        invariant
            i <= count <= parts.len(),
            out@ == joined(views(parts@).take(i as int), separator@),
        decreases count - i,
    {
        if i > 0 {
            out.append(separator);
        }
        out.append(parts[i].as_str());
        proof {
            let now = views(parts@).take(i + 1);
            assert(now.drop_last() =~= views(parts@).take(i as int));
            assert(now.last() == parts@[i as int]@);
            if i == 0 {
                assert(out@ =~= now[0]);
            }
        }
        i += 1;
    }
    out
}

// ---------------------------------------------------------------------------
// Bounded reasoning
// ---------------------------------------------------------------------------

/// The longest a reasoning may be, in bytes of its UTF-8 form.
pub const MAX_REASONING: usize = 500;

/// How much of an overlong reasoning is kept in front of the ellipsis, in bytes.
pub const KEPT_REASONING: usize = 497;

/// The number of bytes of a character in UTF-8.
pub open spec fn utf8_width(c: char) -> nat {
    if (c as u32) < 0x80 {
        1
    } else if (c as u32) < 0x800 {
        2
    } else if (c as u32) < 0x10000 {
        3
    } else {
        4
    }
}

/// The number of bytes of a text in UTF-8.
pub open spec fn byte_len(s: Seq<char>) -> nat
    decreases s.len(),
{
    if s.len() == 0 {
        0
    } else {
        byte_len(s.drop_last()) + utf8_width(s.last())
    }
}

/// The longest prefix of `s` that takes at most `limit` bytes.
pub open spec fn fitting_prefix(s: Seq<char>, limit: nat) -> Seq<char>
    decreases s.len(),
{
    if byte_len(s) <= limit {
        s
    } else {
        fitting_prefix(s.drop_last(), limit)
    }
}

/// A reasoning as directives carry it: unchanged while it takes at most
/// `MAX_REASONING` bytes, and otherwise cut to whole characters within
/// `KEPT_REASONING` bytes and followed by an ellipsis.
pub open spec fn bounded(s: Seq<char>) -> Seq<char> {
    if byte_len(s) <= MAX_REASONING {
        s
    } else {
        fitting_prefix(s, KEPT_REASONING as nat) + "..."@
    }
}

proof fn lemma_byte_len_take(s: Seq<char>, k: int)
    requires
        0 <= k <= s.len(),
    ensures
        byte_len(s.take(k)) <= byte_len(s),
    decreases s.len(),
{
    if k < s.len() {
        assert(s.drop_last().take(k) =~= s.take(k));
        lemma_byte_len_take(s.drop_last(), k);
    } else {
        assert(s.take(k) =~= s);
    }
}

proof fn lemma_fitting_prefix(s: Seq<char>, k: int, limit: nat)
    requires
        0 <= k <= s.len(),
        byte_len(s.take(k)) <= limit,
        k < s.len() ==> byte_len(s.take(k + 1)) > limit,
    ensures
        fitting_prefix(s, limit) == s.take(k),
    decreases s.len(),
{
    if k == s.len() {
        assert(s.take(k) =~= s);
    } else {
        lemma_byte_len_take(s, k + 1);
        assert(s.drop_last().take(k) =~= s.take(k));
        if k + 1 < s.len() {
            assert(s.drop_last().take(k + 1) =~= s.take(k + 1));
        }
        lemma_fitting_prefix(s.drop_last(), k, limit);
    }
}

proof fn lemma_fitting_prefix_fits(s: Seq<char>, limit: nat)
    ensures
        byte_len(fitting_prefix(s, limit)) <= limit,
    decreases s.len(),
{
    if byte_len(s) > limit {
        lemma_fitting_prefix_fits(s.drop_last(), limit);
    }
}

proof fn lemma_byte_len_concat(a: Seq<char>, b: Seq<char>)
    ensures
        byte_len(a + b) == byte_len(a) + byte_len(b),
    decreases b.len(),
{
    if b.len() == 0 {
        assert(a + b =~= a);
    } else {
        assert((a + b).drop_last() =~= a + b.drop_last());
        lemma_byte_len_concat(a, b.drop_last());
    }
}

proof fn lemma_len_within_byte_len(s: Seq<char>)
    ensures
        s.len() <= byte_len(s),
    decreases s.len(),
{
    if s.len() > 0 {
        lemma_len_within_byte_len(s.drop_last());
    }
}

/// A bounded reasoning takes at most `MAX_REASONING` bytes, hence at most as many
/// characters.
pub proof fn bounded_reasoning_is_short(s: Seq<char>)
    ensures
        byte_len(bounded(s)) <= MAX_REASONING,
        bounded(s).len() <= MAX_REASONING,
{
    if byte_len(s) > MAX_REASONING {
        reveal_strlit("...");
        lemma_fitting_prefix_fits(s, KEPT_REASONING as nat);
        let dots = "..."@;
        lemma_byte_len_concat(fitting_prefix(s, KEPT_REASONING as nat), dots);
        assert(dots.drop_last().drop_last().drop_last() =~= Seq::<char>::empty());
        reveal_with_fuel(byte_len, 4);
        assert(byte_len(dots) == 3);
    }
    lemma_len_within_byte_len(bounded(s));
}

/// The number of bytes of a character in UTF-8.
fn width_of(c: char) -> (r: usize)
    ensures
        r == utf8_width(c),
{
    let code = c as u32;
    if code < 0x80 {
        1
    } else if code < 0x800 {
        2
    } else if code < 0x10000 {
        3
    } else {
        4
    }
}

/// Cuts a reasoning to the length that directives allow.
pub fn bound_reasoning(s: String) -> (r: String)
    ensures
        r@ == bounded(s@),
{
    let chars = chars_of(s.as_str());
    let mut total: usize = 0;
    let mut kept: usize = 0;
    let mut i: usize = 0;
    while i < chars.len() && total <= MAX_REASONING
        invariant
            i <= chars.len(),
            kept <= i,
            chars@ == s@,
            total == byte_len(s@.take(i as int)),
            total <= MAX_REASONING + 4,
            byte_len(s@.take(kept as int)) <= KEPT_REASONING,
            kept < i ==> byte_len(s@.take(kept + 1)) > KEPT_REASONING,
        decreases chars.len() - i,
    {
        let width: usize = width_of(chars[i]);
        assert(s@.take(i + 1).drop_last() =~= s@.take(i as int));
        total += width;
        if total <= KEPT_REASONING {
            proof {
                if kept < i {
                    assert(s@.take(i + 1).take(kept + 1) =~= s@.take(kept + 1));
                    lemma_byte_len_take(s@.take(i + 1), kept + 1);
                }
            }
            kept = i + 1;
        }
        i += 1;
    }
    if total <= MAX_REASONING {
        assert(s@.take(i as int) =~= s@);
        return s;
    }
    proof {
        lemma_byte_len_take(s@, i as int);
        lemma_fitting_prefix(s@, kept as int, KEPT_REASONING as nat);
    }
    let mut out = text_of(&chars, 0, kept);
    out.append("...");
    out
}

// ---------------------------------------------------------------------------
// Laws
// ---------------------------------------------------------------------------

/// The number that a decimal notation stands for.
pub open spec fn decimal_value(s: Seq<char>) -> int
    decreases s.len(),
{
    if s.len() == 0 {
        0
    } else {
        10 * decimal_value(s.drop_last()) + (s.last() as u32 - 48)
    }
}

/// A decimal notation consists of the digits '0' to '9', has no zero in front, and stands for
/// its number.
pub proof fn decimal_is_read_back(n: nat)
    ensures
        decimal_value(decimal(n)) == n,
        decimal(n).len() >= 1,
        forall|i: int| 0 <= i < decimal(n).len() ==> '0' <= #[trigger] decimal(n)[i] <= '9',
        n > 0 ==> decimal(n)[0] != '0',
    decreases n,
{
    let d = decimal(n);
    let last = (48 + n % 10) as u8 as char;
    assert(last as u32 == 48 + n % 10);
    if n < 10 {
        assert(d =~= seq![last]);
        assert(d.drop_last() =~= Seq::<char>::empty());
        reveal_with_fuel(decimal_value, 2);
    } else {
        decimal_is_read_back(n / 10);
        assert(d =~= decimal(n / 10).push(last));
        assert(d.drop_last() =~= decimal(n / 10));
        assert(d[0] == decimal(n / 10)[0]);
        assert forall|i: int| 0 <= i < d.len() implies '0' <= #[trigger] d[i] <= '9' by {
            if i < d.len() - 1 {
                assert(d[i] == decimal(n / 10)[i]);
            }
        }
    }
}

/// Different numbers have different notations; a number below zero, and no other, is led in by
/// '-', and the digits stand for its magnitude.
pub proof fn signed_decimal_is_read_back(n: int, other: int)
    ensures
        signed_decimal(n) == signed_decimal(other) ==> n == other,
        signed_decimal(n).len() >= 1,
        n < 0 <==> signed_decimal(n)[0] == '-',
        n >= 0 ==> decimal_value(signed_decimal(n)) == n,
        n < 0 ==> decimal_value(signed_decimal(n).skip(1)) == -n,
{
    lemma_signed_parts(n);
    lemma_signed_parts(other);
}

proof fn lemma_signed_parts(n: int)
    ensures
        signed_decimal(n).len() >= 1,
        n < 0 <==> signed_decimal(n)[0] == '-',
        n >= 0 ==> decimal_value(signed_decimal(n)) == n,
        n < 0 ==> decimal_value(signed_decimal(n).skip(1)) == -n,
{
    if n < 0 {
        decimal_is_read_back((-n) as nat);
        assert(signed_decimal(n).skip(1) =~= decimal((-n) as nat));
    } else {
        decimal_is_read_back(n as nat);
        assert('0' <= decimal(n as nat)[0]);
    }
}

/// Lowercase moves exactly the letters 'A' to 'Z', by 32 places, and uppercase moves exactly the
/// letters 'a' to 'z' back.
pub proof fn ascii_case_by_codes(s: Seq<char>, i: int)
    requires
        0 <= i < s.len(),
    ensures
        ascii_lowercase(s).len() == s.len(),
        ascii_uppercase(s).len() == s.len(),
        ascii_lowercase(s)[i] as u32 == if 65 <= s[i] as u32 <= 90 {
            s[i] as u32 + 32
        } else {
            s[i] as u32 as int
        },
        ascii_uppercase(s)[i] as u32 == if 97 <= s[i] as u32 <= 122 {
            s[i] as u32 - 32
        } else {
            s[i] as u32 as int
        },
{
}

/// Texts that are equal up to ASCII case have the same length, and where their characters
/// differ they are the two cases of one letter.
pub proof fn equal_up_to_case(a: Seq<char>, b: Seq<char>)
    ensures
        eq_ignoring_ascii_case(a, b) <==> a.len() == b.len() && forall|i: int|
            0 <= i < a.len() ==> {
                let x = (#[trigger] a[i]) as u32;
                let y = b[i] as u32;
                ||| x == y
                ||| 65 <= x <= 90 && y == x + 32
                ||| 65 <= y <= 90 && x == y + 32
            },
{
    let la = ascii_lowercase(a);
    let lb = ascii_lowercase(b);
    if eq_ignoring_ascii_case(a, b) {
        assert(la.len() == lb.len());
        assert forall|i: int| 0 <= i < a.len() implies {
            let x = (#[trigger] a[i]) as u32;
            let y = b[i] as u32;
            ||| x == y
            ||| 65 <= x <= 90 && y == x + 32
            ||| 65 <= y <= 90 && x == y + 32
        } by {
            ascii_case_by_codes(a, i);
            ascii_case_by_codes(b, i);
            assert(la[i] == lb[i]);
        }
    }
    if a.len() == b.len() && forall|i: int|
        0 <= i < a.len() ==> {
            let x = (#[trigger] a[i]) as u32;
            let y = b[i] as u32;
            ||| x == y
            ||| 65 <= x <= 90 && y == x + 32
            ||| 65 <= y <= 90 && x == y + 32
        } {
        assert forall|i: int| 0 <= i < a.len() implies la[i] == lb[i] by {
            ascii_case_by_codes(a, i);
            ascii_case_by_codes(b, i);
            let x = a[i] as u32;
            let y = b[i] as u32;
            assert(la[i] as u32 == lb[i] as u32);
        }
        assert(la =~= lb);
    }
}

/// The first characters are a prefix, of as many characters as are asked for or there are.
pub proof fn first_chars_are_a_prefix(s: Seq<char>, count: nat)
    ensures
        first_chars(s, count).len() == if s.len() < count {
            s.len()
        } else {
            count
        },
        forall|i: int|
            0 <= i < first_chars(s, count).len() ==> #[trigger] first_chars(s, count)[i] == s[i],
{
}

/// A single text is joined to itself, and two lists are joined with one separator between.
pub proof fn joining_puts_separators_between(
    a: Seq<Seq<char>>,
    b: Seq<Seq<char>>,
    separator: Seq<char>,
)
    ensures
        a.len() == 0 ==> joined(a, separator).len() == 0,
        a.len() == 1 ==> joined(a, separator) == a[0],
        a.len() > 0 && b.len() > 0 ==> joined(a + b, separator) == joined(a, separator) + separator
            + joined(b, separator),
    decreases b.len(),
{
    if a.len() > 0 && b.len() > 0 {
        assert((a + b).drop_last() =~= a + b.drop_last());
        assert((a + b).last() == b.last());
        if b.len() == 1 {
            assert(a + b.drop_last() =~= a);
        } else {
            joining_puts_separators_between(a, b.drop_last(), separator);
            assert(joined(a + b, separator) =~= joined(a, separator) + separator + joined(
                b,
                separator,
            ));
        }
    }
}

/// The bytes of a text are those of its UTF-8 encoding.
pub proof fn byte_len_is_that_of_utf8(s: Seq<char>)
    ensures
        byte_len(s) == vstd::utf8::encode_utf8(s).len(),
    decreases s.len(),
{
    if s.len() > 0 {
        let first = seq![s[0]];
        assert(s =~= first + s.drop_first());
        lemma_byte_len_concat(first, s.drop_first());
        byte_len_is_that_of_utf8(s.drop_first());
        assert(first.drop_last() =~= Seq::<char>::empty());
        reveal_with_fuel(byte_len, 2);
        vstd::utf8::char_is_scalar(s[0]);
        assert(vstd::utf8::encode_utf8(s) == vstd::utf8::encode_scalar(s[0] as u32)
            + vstd::utf8::encode_utf8(s.drop_first()));
    } else {
        assert(vstd::utf8::encode_utf8(s).len() == 0);
    }
}

/// A reasoning of at most 500 bytes stays as it is. A longer one keeps as many whole characters
/// from its start as take at most 497 bytes, and ends in an ellipsis.
pub proof fn reasoning_is_cut_only_where_too_long(s: Seq<char>)
    ensures
        vstd::utf8::encode_utf8(s).len() <= 500 ==> bounded(s) == s,
        vstd::utf8::encode_utf8(s).len() > 500 ==> {
            let kept = bounded(s).len() - 3;
            &&& 0 <= kept < s.len()
            &&& bounded(s) == s.take(kept) + seq!['.', '.', '.']
            &&& vstd::utf8::encode_utf8(s.take(kept)).len() <= 497
            &&& vstd::utf8::encode_utf8(s.take(kept + 1)).len() > 497
        },
{
    byte_len_is_that_of_utf8(s);
    if byte_len(s) > 500 {
        reveal_strlit("...");
        assert("..."@ =~= seq!['.', '.', '.']);
        let k = lemma_prefix_length(s, 497);
        lemma_fitting_prefix(s, k, 497);
        byte_len_is_that_of_utf8(s.take(k));
        byte_len_is_that_of_utf8(s.take(k + 1));
        assert(bounded(s).len() == k + 3);
    }
}

/// The number of characters from the start that take at most `limit` bytes.
proof fn lemma_prefix_length(s: Seq<char>, limit: nat) -> (k: int)
    requires
        byte_len(s) > limit,
    ensures
        0 <= k < s.len(),
        byte_len(s.take(k)) <= limit,
        byte_len(s.take(k + 1)) > limit,
    decreases s.len(),
{
    let shorter = s.drop_last();
    if byte_len(shorter) <= limit {
        assert(s.take(s.len() - 1) =~= shorter);
        assert(s.take(s.len() as int) =~= s);
        s.len() - 1
    } else {
        let k = lemma_prefix_length(shorter, limit);
        assert(shorter.take(k) =~= s.take(k));
        assert(shorter.take(k + 1) =~= s.take(k + 1));
        k
    }
}

} // verus!
