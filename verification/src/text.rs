//! Reading settings out of text.

use vstd::prelude::*;
use vstd::string::*;

verus! {

/// A character with the Unicode property `White_Space`.
pub open spec fn is_space(c: char) -> bool {
    let u = c as u32;
    ||| 0x9 <= u <= 0xd
    ||| u == 0x20
    ||| u == 0x85
    ||| u == 0xa0
    ||| u == 0x1680
    ||| 0x2000 <= u <= 0x200a
    ||| u == 0x2028
    ||| u == 0x2029
    ||| u == 0x202f
    ||| u == 0x205f
    ||| u == 0x3000
}

/// Whether a character has the Unicode property `White_Space`.
pub fn is_whitespace(c: char) -> (r: bool)
    ensures
        r == is_space(c),
{
    let u = c as u32;
    (0x9 <= u && u <= 0xd) || u == 0x20 || u == 0x85 || u == 0xa0 || u == 0x1680 || (0x2000 <= u && u <= 0x200a)
        || u == 0x2028 || u == 0x2029 || u == 0x202f || u == 0x205f || u == 0x3000
}

/// `s` without the white space that it starts with.
pub open spec fn trim_start(s: Seq<char>) -> Seq<char>
    decreases s.len(),
{
    if s.len() > 0 && is_space(s.first()) {
        trim_start(s.drop_first())
    } else {
        s
    }
}

/// `s` without the white space that it ends with.
pub open spec fn trim_end(s: Seq<char>) -> Seq<char>
    decreases s.len(),
{
    if s.len() > 0 && is_space(s.last()) {
        trim_end(s.drop_last())
    } else {
        s
    }
}

/// `s` without the white space that it starts and ends with.
pub open spec fn trimmed(s: Seq<char>) -> Seq<char> {
    trim_end(trim_start(s))
}

/// The parts of `s` between the places where it holds `sep`.
pub open spec fn split_on(s: Seq<char>, sep: char) -> Seq<Seq<char>>
    decreases s.len(),
{
    if s.len() == 0 {
        seq![Seq::<char>::empty()]
    } else {
        let before = split_on(s.drop_last(), sep);
        if s.last() == sep {
            before.push(Seq::<char>::empty())
        } else {
            before.drop_last().push(before.last().push(s.last()))
        }
    }
}

/// The character with ASCII capital letters made small.
pub open spec fn lower(c: char) -> char {
    if 'A' <= c <= 'Z' {
        ((c as u32) + 32) as char
    } else {
        c
    }
}

/// The characters of a text.
pub fn chars_of(s: &str) -> (v: Vec<char>)
    ensures
        v@ == s@,
{
    let mut v: Vec<char> = Vec::new();
    for c in it: s.chars()
        invariant
            it.seq() == s@,
            v@ == s@.take(it.index() as int),
    {
        v.push(c);
        assert(v@ =~= s@.take(it.index() + 1));
    }
    assert(s@.take(s@.len() as int) =~= s@);
    v
}

/// `c` with ASCII capital letters made small.
pub fn to_lower(c: char) -> (r: char)
    ensures
        r == lower(c),
{
    if 'A' <= c && c <= 'Z' {
        ((c as u8) + 32) as char
    } else {
        c
    }
}

/// A text without the white space that it starts and ends with.
pub fn trim<'a>(s: &'a str) -> (r: &'a str)
    ensures
        r@ == trimmed(s@),
{
    let chars = chars_of(s);
    let n = chars.len();
    let mut from: usize = 0;
    assert(s@.skip(0) =~= s@);
    while from < n && is_whitespace(chars[from])
        invariant
            chars@ == s@,
            n == s@.len(),
            from <= n,
            trim_start(s@) == trim_start(s@.skip(from as int)),
        decreases n - from,
    {
        assert(s@.skip(from as int).drop_first() =~= s@.skip(from + 1));
        from += 1;
    }
    let ghost rest = s@.skip(from as int);
    assert(trim_start(s@) == rest);
    let mut to: usize = n;
    assert(s@.subrange(from as int, n as int) =~= rest);
    while to > from && is_whitespace(chars[to - 1])
        invariant
            chars@ == s@,
            n == s@.len(),
            from <= to <= n,
            trim_end(rest) == trim_end(s@.subrange(from as int, to as int)),
        decreases to,
    {
        assert(s@.subrange(from as int, to as int).drop_last() =~= s@.subrange(from as int, to - 1));
        to -= 1;
    }
    s.substring_char(from, to)
}

/// Text that neither starts nor ends with white space has none to lose.
pub proof fn lemma_trim_nothing(s: Seq<char>)
    requires
        s.len() > 0 ==> !is_space(s.first()) && !is_space(s.last()),
    ensures
        trimmed(s) == s,
{
}

/// The views of the parts of a list.
pub open spec fn str_views(parts: Seq<&str>) -> Seq<Seq<char>> {
    parts.map_values(|p: &str| p@)
}

/// The views of a list of texts.
pub open spec fn string_views(parts: Seq<String>) -> Seq<Seq<char>> {
    parts.map_values(|p: String| p@)
}

/// The parts of a text between the places where it holds `sep`.
pub fn split<'a>(s: &'a str, sep: char) -> (parts: Vec<&'a str>)
    ensures
        str_views(parts@) == split_on(s@, sep),
{
    let chars = chars_of(s);
    let n = chars.len();
    let mut parts: Vec<&'a str> = Vec::new();
    let mut start: usize = 0;
    let mut k: usize = 0;
    assert(s@.subrange(0, 0) =~= Seq::<char>::empty());
    assert(str_views(parts@).push(s@.subrange(0, 0)) =~= split_on(s@.take(0), sep));
    while k < n
        invariant
            chars@ == s@,
            n == s@.len(),
            start <= k <= n,
            str_views(parts@).push(s@.subrange(start as int, k as int)) == split_on(s@.take(k as int), sep),
        decreases n - k,
    {
        let ghost done = split_on(s@.take(k as int), sep);
        let ghost views = str_views(parts@);
        proof {
            assert(s@.take(k + 1).drop_last() =~= s@.take(k as int));
            assert(done.drop_last() =~= views);
            assert(done.last() == s@.subrange(start as int, k as int));
        }
        if chars[k] == sep {
            parts.push(s.substring_char(start, k));
            start = k + 1;
            proof {
                assert(str_views(parts@) =~= done);
                assert(s@.subrange(start as int, k + 1) =~= Seq::<char>::empty());
            }
        } else {
            assert(s@.subrange(start as int, k + 1) =~= s@.subrange(start as int, k as int).push(s@[k as int]));
        }
        k += 1;
    }
    let ghost views = str_views(parts@);
    parts.push(s.substring_char(start, n));
    proof {
        assert(s@.take(n as int) =~= s@);
        assert(str_views(parts@) =~= views.push(s@.subrange(start as int, n as int)));
    }
    parts
}

/// The parts of a text between commas, each without the white space around it.
pub open spec fn comma_list(s: Seq<char>) -> Seq<Seq<char>> {
    split_on(s, ',').map_values(|p: Seq<char>| trimmed(p))
}

/// The parts of a text between commas, each without the white space around it, but for the empty ones.
pub open spec fn comma_list_nonempty(s: Seq<char>) -> Seq<Seq<char>> {
    comma_list(s).filter(|p: Seq<char>| p.len() > 0)
}

/// Reads a list whose parts are set apart by commas.
pub fn parse_comma_list(s: &str) -> (list: Vec<String>)
    ensures
        string_views(list@) == comma_list(s@),
{
    let parts = split(s, ',');
    let mut list: Vec<String> = Vec::new();
    for k in 0..parts.len()
        invariant
            str_views(parts@) == split_on(s@, ','),
            string_views(list@) == comma_list(s@).take(k as int),
            parts.len() == comma_list(s@).len(),
    {
        let ghost before = string_views(list@);
        assert(str_views(parts@)[k as int] == parts[k as int]@);
        list.push(trim(parts[k]).to_string());
        assert(string_views(list@) =~= before.push(comma_list(s@)[k as int]));
        assert(comma_list(s@).take(k + 1) =~= before.push(comma_list(s@)[k as int]));
    }
    assert(comma_list(s@).take(parts.len() as int) =~= comma_list(s@));
    list
}

/// Reads a list whose parts are set apart by commas, and passes over the empty ones.
pub fn parse_comma_list_nonempty(s: &str) -> (list: Vec<String>)
    ensures
        string_views(list@) == comma_list_nonempty(s@),
{
    let parts = split(s, ',');
    let mut list: Vec<String> = Vec::new();
    let ghost all = comma_list(s@);
    let ghost keep = |p: Seq<char>| p.len() > 0;
    assert(string_views(list@) =~= all.take(0).filter(keep));
    for k in 0..parts.len()
        invariant
            str_views(parts@) == split_on(s@, ','),
            all == comma_list(s@),
            keep == (|p: Seq<char>| p.len() > 0),
            string_views(list@) == all.take(k as int).filter(keep),
            parts.len() == all.len(),
    {
        let ghost before = string_views(list@);
        assert(str_views(parts@)[k as int] == parts[k as int]@);
        let part = trim(parts[k]);
        proof {
            assert(all.take(k + 1).drop_last() =~= all.take(k as int));
            reveal(Seq::filter);
        }
        if part.unicode_len() > 0 {
            list.push(part.to_string());
            assert(string_views(list@) =~= before.push(all[k as int]));
        }
    }
    assert(all.take(all.len() as int) =~= all);
    list
}

/// Why a text is no unsigned number.
#[derive(Debug, Clone, Copy, PartialEq, Eq, Structural)]
pub enum ParseUintError {
    /// There is nothing to read.
    Empty,
    /// A character is no digit.
    InvalidDigit,
    /// The number is too large.
    PosOverflow,
}

impl ParseUintError {
    /// The error in words.
    pub fn message(&self) -> (r: &'static str)
        ensures
            r@ == self.words(),
    {
        match self {
            ParseUintError::Empty => "cannot parse integer from empty string",
            ParseUintError::InvalidDigit => "invalid digit found in string",
            ParseUintError::PosOverflow => "number too large to fit in target type",
        }
    }

    /// The error in words.
    pub open spec fn words(&self) -> Seq<char> {
        match self {
            ParseUintError::Empty => "cannot parse integer from empty string"@,
            ParseUintError::InvalidDigit => "invalid digit found in string"@,
            ParseUintError::PosOverflow => "number too large to fit in target type"@,
        }
    }
}

/// A decimal digit.
pub open spec fn is_digit(c: char) -> bool {
    '0' <= c <= '9'
}

/// The value of a decimal digit.
pub open spec fn digit_value(c: char) -> nat {
    ((c as int) - ('0' as int)) as nat
}

/// The number that the digits of `s` write, or the first thing, from the left, that stands against it.
pub open spec fn digits_value(s: Seq<char>, max: nat) -> Result<nat, ParseUintError>
    decreases s.len(),
{
    if s.len() == 0 {
        Ok(0)
    } else {
        match digits_value(s.drop_last(), max) {
            Err(e) => Err(e),
            Ok(n) => if !is_digit(s.last()) {
                Err(ParseUintError::InvalidDigit)
            } else if n * 10 + digit_value(s.last()) > max {
                Err(ParseUintError::PosOverflow)
            } else {
                Ok(n * 10 + digit_value(s.last()))
            },
        }
    }
}

/// The number up to `max` that a text writes: digits, which a plus sign may precede.
pub open spec fn uint_value(s: Seq<char>, max: nat) -> Result<nat, ParseUintError> {
    if s.len() == 0 {
        Err(ParseUintError::Empty)
    } else if s.first() == '+' {
        if s.len() == 1 {
            Err(ParseUintError::InvalidDigit)
        } else {
            digits_value(s.drop_first(), max)
        }
    } else {
        digits_value(s, max)
    }
}

/// Reads a number up to `max`: digits, which a plus sign may precede.
pub fn parse_uint(s: &str, max: u64) -> (r: Result<u64, ParseUintError>)
    ensures
        match uint_value(s@, max as nat) {
            Ok(n) => r == Ok::<u64, ParseUintError>(n as u64) && n <= max,
            Err(e) => r == Err::<u64, ParseUintError>(e),
        },
{
    let chars = chars_of(s);
    let n = chars.len();
    if n == 0 {
        return Err(ParseUintError::Empty);
    }
    let first: usize = if chars[0] == '+' {
        if n == 1 {
            return Err(ParseUintError::InvalidDigit);
        }
        1
    } else {
        0
    };
    let ghost digits = if first == 1 { s@.drop_first() } else { s@ };
    let mut value: u64 = 0;
    let mut k: usize = first;
    assert(digits.take(0) =~= Seq::<char>::empty());
    while k < n
        invariant
            chars@ == s@,
            n == s@.len(),
            first <= k <= n,
            digits.len() == n - first,
            forall|i: int| 0 <= i < digits.len() ==> digits[i] == s@[i + first],
            value <= max,
            uint_value(s@, max as nat) == digits_value(digits, max as nat),
            digits_value(digits.take(k - first), max as nat) == Ok::<nat, ParseUintError>(value as nat),
        decreases n - k,
    {
        let c = chars[k];
        let ghost seen = digits.take(k + 1 - first);
        proof {
            assert(seen.drop_last() =~= digits.take(k - first));
            assert(seen.last() == c);
        }
        if c < '0' || c > '9' {
            proof {
                lemma_digits_fail(digits, k + 1 - first, max as nat);
            }
            return Err(ParseUintError::InvalidDigit);
        }
        let d: u64 = (c as u64) - ('0' as u64);
        let wide: u128 = (value as u128) * 10 + (d as u128);
        if wide > max as u128 {
            proof {
                lemma_digits_fail(digits, k + 1 - first, max as nat);
            }
            return Err(ParseUintError::PosOverflow);
        }
        value = wide as u64;
        k += 1;
    }
    assert(digits.take(n - first) =~= digits);
    Ok(value)
}

/// What stands against the first `n` characters stands against all of them.
proof fn lemma_digits_fail(s: Seq<char>, n: int, max: nat)
    requires
        0 <= n <= s.len(),
        digits_value(s.take(n), max) is Err,
    ensures
        digits_value(s, max) == digits_value(s.take(n), max),
    decreases s.len(),
{
    if n == s.len() {
        assert(s.take(n) =~= s);
    } else {
        assert(s.drop_last().take(n) =~= s.take(n));
        lemma_digits_fail(s.drop_last(), n, max);
    }
}

/// Reads a switch that is written out in full: `true` or `false`.
pub fn parse_bool(s: &str) -> (r: Option<bool>)
    ensures
        r == bool_value(s@),
{
    let chars = chars_of(s);
    if same_chars(&chars, "true") {
        Some(true)
    } else if same_chars(&chars, "false") {
        Some(false)
    } else {
        None
    }
}

/// The switch that a text writes out in full.
pub open spec fn bool_value(s: Seq<char>) -> Option<bool> {
    if s == "true"@ {
        Some(true)
    } else if s == "false"@ {
        Some(false)
    } else {
        None
    }
}

/// Whether the characters are those of a text.
pub fn same_chars(chars: &Vec<char>, text: &str) -> (r: bool)
    ensures
        r == (chars@ == text@),
{
    let other = chars_of(text);
    if chars.len() != other.len() {
        return false;
    }
    for k in 0..chars.len()
        invariant
            other@ == text@,
            chars.len() == other.len(),
            forall|i: int| 0 <= i < k ==> chars[i] == other[i],
    {
        if chars[k] != other[k] {
            assert(chars@[k as int] != text@[k as int]);
            return false;
        }
    }
    assert(chars@ =~= text@);
    true
}

/// The digit of a value below ten.
pub open spec fn digit_char(d: nat) -> char {
    "0123456789"@[d as int]
}

/// The digits of a number, without leading zeros.
pub open spec fn decimal(n: nat) -> Seq<char>
    decreases n,
{
    if n < 10 {
        seq![digit_char(n)]
    } else {
        decimal(n / 10).push(digit_char(n % 10))
    }
}

/// Writes a number.
pub fn to_decimal(n: u64) -> (s: String)
    ensures
        s@ == decimal(n as nat),
    decreases n,
{
    proof {
        reveal_strlit("0123456789");
    }
    if n < 10 {
        let s = "0123456789".substring_char(n as usize, n as usize + 1).to_string();
        assert(s@ =~= seq![digit_char(n as nat)]);
        s
    } else {
        let d = (n % 10) as usize;
        let mut s = to_decimal(n / 10);
        let ghost before = s@;
        s.append("0123456789".substring_char(d, d + 1));
        assert(s@ =~= before.push(digit_char(d as nat)));
        s
    }
}

/// A number that is written reads back as itself, wherever it is not too large.
pub proof fn law_decimal_reads_back(n: nat, max: nat)
    requires
        n <= max,
    ensures
        uint_value(decimal(n), max) == Ok::<nat, ParseUintError>(n),
{
    lemma_decimal_digits(n, max);
    reveal_strlit("0123456789");
}

/// The digits of a number write it.
proof fn lemma_decimal_digits(n: nat, max: nat)
    requires
        n <= max,
    ensures
        decimal(n).len() > 0,
        forall|i: int| 0 <= i < decimal(n).len() ==> is_digit(#[trigger] decimal(n)[i]),
        digits_value(decimal(n), max) == Ok::<nat, ParseUintError>(n),
    decreases n,
{
    reveal_strlit("0123456789");
    if n < 10 {
        assert(decimal(n).drop_last() =~= Seq::<char>::empty());
        assert(digits_value(decimal(n).drop_last(), max) == Ok::<nat, ParseUintError>(0));
    } else {
        lemma_decimal_digits(n / 10, max);
        assert(decimal(n).drop_last() =~= decimal(n / 10));
    }
}

/// The parts of `list` with `sep` between each two.
pub open spec fn joined(list: Seq<Seq<char>>, sep: char) -> Seq<char>
    decreases list.len(),
{
    if list.len() == 0 {
        Seq::empty()
    } else if list.len() == 1 {
        list[0]
    } else {
        joined(list.drop_last(), sep).push(sep) + list.last()
    }
}

/// The parts of a text, put together again, give the text, and none of them holds what sets them apart.
pub proof fn law_parts_make_up_the_text(s: Seq<char>, sep: char)
    ensures
        split_on(s, sep).len() > 0,
        joined(split_on(s, sep), sep) == s,
        forall|i: int| 0 <= i < split_on(s, sep).len() ==> !(#[trigger] split_on(s, sep)[i]).contains(sep),
    decreases s.len(),
{
    let parts = split_on(s, sep);
    if s.len() > 0 {
        let c = s.last();
        let before = split_on(s.drop_last(), sep);
        law_parts_make_up_the_text(s.drop_last(), sep);
        assert(s =~= s.drop_last().push(c));
        if c == sep {
            assert(parts.drop_last() =~= before);
            assert(joined(parts, sep) =~= s);
        } else {
            let last = before.last().push(c);
            assert(before[before.len() - 1] == before.last());
            assert(parts.drop_last() =~= before.drop_last());
            assert(joined(parts, sep) =~= joined(before, sep).push(c));
            assert(!last.contains(sep)) by {
                assert forall|k: int| 0 <= k < last.len() implies last[k] != sep by {
                    if k < before.last().len() {
                        assert(before.last().contains(before.last()[k]));
                    }
                }
            }
            assert forall|i: int| 0 <= i < parts.len() implies !(#[trigger] parts[i]).contains(sep) by {
                if i < before.len() - 1 {
                    assert(parts[i] == before[i]);
                }
            }
        }
    }
}

/// What is left of a text without the white space around it is a stretch of the text: all before it and all behind it
/// is white space, and it neither starts nor ends with any.
pub proof fn law_trimming_takes_off_just_the_space_around(s: Seq<char>) -> (ends: (int, int))
    ensures
        0 <= ends.0 <= ends.1 <= s.len(),
        trimmed(s) == s.subrange(ends.0, ends.1),
        forall|i: int| 0 <= i < ends.0 || ends.1 <= i < s.len() ==> is_space(#[trigger] s[i]),
        ends.0 < ends.1 ==> !is_space(s[ends.0]) && !is_space(s[ends.1 - 1]),
{
    let from = lemma_trim_start(s);
    let rest = s.skip(from);
    let len = lemma_trim_end(rest);
    assert(rest.take(len) =~= s.subrange(from, from + len));
    assert forall|i: int| 0 <= i < from || from + len <= i < s.len() implies is_space(#[trigger] s[i]) by {
        if i >= from + len {
            assert(s[i] == rest[i - from]);
        }
    }
    if len > 0 {
        assert(s[from] == rest[0]);
        assert(s[from + len - 1] == rest[len - 1]);
    }
    (from, from + len)
}

/// How much white space a text starts with.
proof fn lemma_trim_start(s: Seq<char>) -> (from: int)
    ensures
        0 <= from <= s.len(),
        trim_start(s) == s.skip(from),
        forall|i: int| 0 <= i < from ==> is_space(#[trigger] s[i]),
        from < s.len() ==> !is_space(s[from]),
    decreases s.len(),
{
    if s.len() > 0 && is_space(s.first()) {
        let rest = s.drop_first();
        let n = lemma_trim_start(rest);
        assert(rest.skip(n) =~= s.skip(n + 1));
        assert forall|i: int| 0 <= i < n + 1 implies is_space(#[trigger] s[i]) by {
            if i > 0 {
                assert(s[i] == rest[i - 1]);
            }
        }
        if n < rest.len() {
            assert(s[n + 1] == rest[n]);
        }
        n + 1
    } else {
        assert(s.skip(0) =~= s);
        0
    }
}

/// How long a text is without the white space that it ends with.
proof fn lemma_trim_end(s: Seq<char>) -> (len: int)
    ensures
        0 <= len <= s.len(),
        trim_end(s) == s.take(len),
        forall|i: int| len <= i < s.len() ==> is_space(#[trigger] s[i]),
        len > 0 ==> !is_space(s[len - 1]),
        s.len() > 0 && !is_space(s[0]) ==> len > 0,
    decreases s.len(),
{
    if s.len() > 0 && is_space(s.last()) {
        let rest = s.drop_last();
        let n = lemma_trim_end(rest);
        assert(rest.take(n) =~= s.take(n));
        assert forall|i: int| n <= i < s.len() implies is_space(#[trigger] s[i]) by {
            if i < rest.len() {
                assert(s[i] == rest[i]);
            }
        }
        if n > 0 {
            assert(s[n - 1] == rest[n - 1]);
        }
        if rest.len() > 0 {
            assert(s[0] == rest[0]);
        }
        n
    } else {
        assert(s.take(s.len() as int) =~= s);
        s.len() as int
    }
}

/// A list of two lists with a comma between them has the parts of the one and then those of the other, with the empty
/// parts and without. A text without a comma is one part, without the white space around it, or no part if that is
/// empty and empty parts are passed over.
pub proof fn law_lists_are_read_part_by_part(s: Seq<char>, t: Seq<char>)
    ensures
        comma_list(s.push(',') + t) == comma_list(s) + comma_list(t),
        comma_list_nonempty(s.push(',') + t) == comma_list_nonempty(s) + comma_list_nonempty(t),
        !s.contains(',') ==> comma_list(s) == seq![trimmed(s)],
        !s.contains(',') && trimmed(s).len() > 0 ==> comma_list_nonempty(s) == seq![trimmed(s)],
        !s.contains(',') && trimmed(s).len() == 0 ==> comma_list_nonempty(s) == Seq::<Seq<char>>::empty(),
{
    lemma_split_joined(s, t, ',');
    assert(comma_list(s.push(',') + t) =~= comma_list(s) + comma_list(t));
    let keep = |p: Seq<char>| p.len() > 0;
    lemma_filter_concat(comma_list(s), comma_list(t), keep);
    if !s.contains(',') {
        lemma_split_alone(s, ',');
        let one = seq![trimmed(s)];
        assert(comma_list(s) =~= one);
        reveal(Seq::filter);
        assert(one.drop_last() =~= Seq::empty());
        assert(Seq::<Seq<char>>::empty().filter(keep) =~= Seq::empty());
        if trimmed(s).len() > 0 {
            assert(comma_list_nonempty(s) =~= one);
        } else {
            assert(comma_list_nonempty(s) =~= Seq::empty());
        }
    }
}

/// To sift a list that is made of two is to sift each.
proof fn lemma_filter_concat(a: Seq<Seq<char>>, b: Seq<Seq<char>>, keep: spec_fn(Seq<char>) -> bool)
    ensures
        (a + b).filter(keep) == a.filter(keep) + b.filter(keep),
    decreases b.len(),
{
    reveal(Seq::filter);
    if b.len() == 0 {
        assert(a + b =~= a);
        assert(a.filter(keep) + b.filter(keep) =~= a.filter(keep));
    } else {
        lemma_filter_concat(a, b.drop_last(), keep);
        assert((a + b).drop_last() =~= a + b.drop_last());
        assert((a + b).filter(keep) =~= a.filter(keep) + b.filter(keep));
    }
}

/// The parts of two texts with `sep` between them.
proof fn lemma_split_joined(s: Seq<char>, t: Seq<char>, sep: char)
    ensures
        split_on(s.push(sep) + t, sep) == split_on(s, sep) + split_on(t, sep),
        split_on(t, sep).len() > 0,
    decreases t.len(),
{
    law_parts_make_up_the_text(t, sep);
    let all = s.push(sep) + t;
    if t.len() == 0 {
        assert(all =~= s.push(sep));
        assert(all.drop_last() =~= s);
        assert(split_on(all, sep) =~= split_on(s, sep) + split_on(t, sep));
    } else {
        lemma_split_joined(s, t.drop_last(), sep);
        assert(all.drop_last() =~= s.push(sep) + t.drop_last());
        let before = split_on(s, sep) + split_on(t.drop_last(), sep);
        law_parts_make_up_the_text(t.drop_last(), sep);
        assert(before.drop_last() =~= split_on(s, sep) + split_on(t.drop_last(), sep).drop_last());
        assert(split_on(all, sep) =~= split_on(s, sep) + split_on(t, sep));
    }
}

/// A text without `sep` is one part.
proof fn lemma_split_alone(s: Seq<char>, sep: char)
    requires
        !s.contains(sep),
    ensures
        split_on(s, sep) == seq![s],
    decreases s.len(),
{
    if s.len() > 0 {
        assert(s[s.len() - 1] == s.last());
        assert forall|i: int| 0 <= i < s.len() - 1 implies #[trigger] s.drop_last()[i] != sep by {
            assert(s[i] == s.drop_last()[i]);
        }
        lemma_split_alone(s.drop_last(), sep);
        assert(s.drop_last().push(s.last()) =~= s);
        assert(split_on(s, sep) =~= seq![s]);
    } else {
        assert(s =~= Seq::empty());
        assert(split_on(s, sep) =~= seq![s]);
    }
}

/// One digit writes its value, and one more digit behind a number makes it ten times as large and adds its value, as far
/// as the number does not become too large. Anything else than a digit behind a number is refused. What was refused is
/// refused for the same reason, whatever comes behind it.
pub proof fn law_numbers_are_read_digit_by_digit(t: Seq<char>, c: char, max: nat)
    ensures
        '0' <= c <= '9' && (c as int) - ('0' as int) <= max ==> uint_value(seq![c], max) == Ok::<nat, ParseUintError>(
            ((c as int) - ('0' as int)) as nat,
        ),
        '0' <= c <= '9' && (c as int) - ('0' as int) > max ==> uint_value(seq![c], max) == Err::<nat, ParseUintError>(
            ParseUintError::PosOverflow,
        ),
        !('0' <= c <= '9') ==> uint_value(seq![c], max) == Err::<nat, ParseUintError>(ParseUintError::InvalidDigit),
        uint_value(t, max) matches Ok(n) ==> uint_value(t.push(c), max) == (if !('0' <= c <= '9') {
            Err::<nat, ParseUintError>(ParseUintError::InvalidDigit)
        } else if n * 10 + ((c as int) - ('0' as int)) > max {
            Err::<nat, ParseUintError>(ParseUintError::PosOverflow)
        } else {
            Ok::<nat, ParseUintError>((n * 10 + ((c as int) - ('0' as int))) as nat)
        }),
        uint_value(t, max) is Err && t.len() > 0 && t != seq!['+'] ==> uint_value(t.push(c), max) == uint_value(t, max),
{
    let one = seq![c];
    assert(one.drop_last() =~= Seq::<char>::empty());
    assert(digits_value(one.drop_last(), max) == Ok::<nat, ParseUintError>(0));
    if t.len() > 0 {
        assert(t.push(c).first() == t.first());
        assert(t.push(c).drop_last() =~= t);
        assert(t.push(c).drop_first() =~= t.drop_first().push(c));
        assert(t.drop_first().push(c).drop_last() =~= t.drop_first());
        if t.first() == '+' && t.len() == 1 {
            assert(t =~= seq!['+']);
        }
    }
}

/// There is no number in nothing, nor in a plus sign alone. A plus sign before a number changes nothing, but there is
/// only one.
pub proof fn law_numbers_may_have_one_plus_sign(t: Seq<char>, max: nat)
    ensures
        uint_value(Seq::empty(), max) == Err::<nat, ParseUintError>(ParseUintError::Empty),
        uint_value(seq!['+'], max) == Err::<nat, ParseUintError>(ParseUintError::InvalidDigit),
        t.len() > 0 && t.first() != '+' ==> uint_value(seq!['+'] + t, max) == uint_value(t, max),
        t.len() > 0 && t.first() == '+' ==> uint_value(seq!['+'] + t, max) == Err::<nat, ParseUintError>(
            ParseUintError::InvalidDigit,
        ),
        uint_value(t, max) matches Ok(n) ==> n <= max,
{
    let signed = seq!['+'] + t;
    if t.len() > 0 {
        assert(signed.drop_first() =~= t);
        if t.first() == '+' {
            lemma_first_is_no_digit(t, max);
        }
    }
    lemma_digits_bound(t, max);
    if t.len() > 0 {
        lemma_digits_bound(t.drop_first(), max);
    }
}

/// A text that does not start with a digit is refused for that.
proof fn lemma_first_is_no_digit(t: Seq<char>, max: nat)
    requires
        t.len() > 0,
        !is_digit(t.first()),
    ensures
        digits_value(t, max) == Err::<nat, ParseUintError>(ParseUintError::InvalidDigit),
    decreases t.len(),
{
    if t.len() == 1 {
        assert(t.drop_last() =~= Seq::<char>::empty());
        assert(digits_value(t.drop_last(), max) == Ok::<nat, ParseUintError>(0));
    } else {
        assert(t.drop_last().first() == t.first());
        lemma_first_is_no_digit(t.drop_last(), max);
    }
}

/// A number that is read is not too large.
proof fn lemma_digits_bound(t: Seq<char>, max: nat)
    ensures
        digits_value(t, max) matches Ok(n) ==> n <= max,
    decreases t.len(),
{
    if t.len() > 0 {
        lemma_digits_bound(t.drop_last(), max);
    }
}

/// A number is written with the digits of its tenth part, and then its last digit; one below ten is one digit.
pub proof fn law_numbers_are_written_digit_by_digit(n: nat, d: nat)
    requires
        d < 10,
    ensures
        decimal(d) == seq![(('0' as u32) + d) as char],
        n > 0 ==> decimal(10 * n + d) == decimal(n).push((('0' as u32) + d) as char),
{
    reveal_strlit("0123456789");
    if n > 0 {
        assert((10 * n + d) / 10 == n);
        assert((10 * n + d) % 10 == d);
    }
}

/// Only `true` and `false`, written out and with nothing around, are switches, the one on and the other off.
pub proof fn law_switches_are_written_out(s: Seq<char>)
    ensures
        bool_value(s) == Some(true) <==> s == seq!['t', 'r', 'u', 'e'],
        bool_value(s) == Some(false) <==> s == seq!['f', 'a', 'l', 's', 'e'],
{
    reveal_strlit("true");
    reveal_strlit("false");
    assert("true"@ =~= seq!['t', 'r', 'u', 'e']);
    assert("false"@ =~= seq!['f', 'a', 'l', 's', 'e']);
    assert("true"@.len() != "false"@.len());
}

}
