//! Song paths name a file and, after a `|`, the index of a sub-song in it
//! (`"music.sid|3"`).  Without a separator the sub-song index is 0.

use vstd::prelude::*;
use vstd::utf8::*;
use vstd::string::StringSliceAdditionalSpecFns;

verus! {

broadcast use vstd::utf8::encode_utf8_valid_utf8;

/// The byte that separates the file name from the sub-song index.
pub const SUBSONG_SEPARATOR: u8 = 124;

/// An ASCII decimal digit.
pub open spec fn is_digit(b: u8) -> bool {
    48 <= b <= 57
}

/// The number that a run of decimal digits denotes.
pub open spec fn digits_value(d: Seq<u8>) -> int
    decreases d.len(),
{
    if d.len() == 0 {
        0
    } else {
        digits_value(d.drop_last()) * 10 + (d.last() - 48)
    }
}

/// The value `str::parse::<i32>` gives for the text `b`: an optional `+` or
/// `-`, then at least one decimal digit and nothing else, within the range
/// of `i32`.  `None` where it gives an error.
pub open spec fn parse_i32(b: Seq<u8>) -> Option<i32> {
    if b.len() > 0 && b[0] == 45u8 {
        digits_to_i32(true, b.skip(1))
    } else if b.len() > 0 && b[0] == 43u8 {
        digits_to_i32(false, b.skip(1))
    } else {
        digits_to_i32(false, b)
    }
}

/// The `i32` that the digits `d` denote, negated where `negative`; `None`
/// where `d` is empty, holds another byte, or denotes a number out of range.
pub open spec fn digits_to_i32(negative: bool, d: Seq<u8>) -> Option<i32> {
    if d.len() == 0 || exists|i: int| 0 <= i < d.len() && !is_digit(#[trigger] d[i]) {
        None
    } else {
        let v = if negative { -digits_value(d) } else { digits_value(d) };
        if i32::MIN <= v <= i32::MAX { Some(v as i32) } else { None }
    }
}

/// `i` is the position of the first separator in `b`.
pub open spec fn is_first_separator(b: Seq<u8>, i: int) -> bool {
    &&& 0 <= i < b.len()
    &&& b[i] == SUBSONG_SEPARATOR
    &&& forall|j: int| 0 <= j < i ==> b[j] != SUBSONG_SEPARATOR
}

/// Position of the first separator in `b`, or `b.len()` where there is none.
pub open spec fn separator_index(b: Seq<u8>) -> int {
    if exists|i: int| is_first_separator(b, i) {
        choose|i: int| is_first_separator(b, i)
    } else {
        b.len() as int
    }
}

/// The bytes of the file name: everything before the first separator.
pub open spec fn song_file_bytes(b: Seq<u8>) -> Seq<u8> {
    b.take(separator_index(b))
}

/// The sub-song index that a song path names: the number after the first
/// separator, or 0 where there is no separator.
pub open spec fn subsong_index(b: Seq<u8>) -> Option<i32> {
    if separator_index(b) < b.len() {
        parse_i32(b.skip(separator_index(b) + 1))
    } else {
        Some(0i32)
    }
}

/// A song path that can be opened: its file name holds no NUL byte (it is
/// handed on as a C string) and the text after the separator, if any, is
/// an `i32`.
pub open spec fn valid_song_path(b: Seq<u8>) -> bool {
    &&& forall|k: int| 0 <= k < separator_index(b) ==> b[k] != 0u8
    &&& subsong_index(b) is Some
}

proof fn lemma_separator_index(b: Seq<u8>, i: int)
    requires
        0 <= i <= b.len(),
        forall|j: int| 0 <= j < i ==> b[j] != SUBSONG_SEPARATOR,
        i == b.len() || b[i] == SUBSONG_SEPARATOR,
    ensures
        separator_index(b) == i,
{
    if i < b.len() {
        assert(is_first_separator(b, i));
        let c = choose|c: int| is_first_separator(b, c);
        assert(c == i) by {
            if c < i {
                assert(b[c] != SUBSONG_SEPARATOR);
            } else if c > i {
                assert(b[i] != SUBSONG_SEPARATOR);
            }
        }
    } else {
        assert(!exists|c: int| is_first_separator(b, c)) by {
            assert forall|c: int| !is_first_separator(b, c) by {
                if 0 <= c < b.len() {
                    assert(b[c] != SUBSONG_SEPARATOR);
                }
            }
        }
    }
}

proof fn lemma_digits_value_grows(d: Seq<u8>, k: int)
    requires
        0 <= k <= d.len(),
        forall|i: int| 0 <= i < d.len() ==> is_digit(#[trigger] d[i]),
    ensures
        digits_value(d.take(k)) <= digits_value(d),
        digits_value(d.take(k)) >= 0,
    decreases d.len() - k,
{
    if k == d.len() {
        assert(d.take(k) =~= d);
        lemma_digits_value_nonneg(d);
    } else {
        lemma_digits_value_grows(d, k + 1);
        assert(d.take(k + 1).drop_last() =~= d.take(k));
        lemma_digits_value_nonneg(d.take(k));
    }
}

proof fn lemma_digits_value_nonneg(d: Seq<u8>)
    requires
        forall|i: int| 0 <= i < d.len() ==> is_digit(#[trigger] d[i]),
    ensures
        digits_value(d) >= 0,
    decreases d.len(),
{
    if d.len() > 0 {
        lemma_digits_value_nonneg(d.drop_last());
        assert(is_digit(d[d.len() - 1]));
    }
}

/// Parses decimal text as `str::parse::<i32>` does.
pub fn parse_i32_bytes(b: &[u8]) -> (r: Option<i32>)
    ensures
        r == parse_i32(b@),
{
    let len = b.len();
    let mut start: usize = 0;
    let mut negative = false;
    if len > 0 && (b[0] == 45 || b[0] == 43) {
        negative = b[0] == 45;
        start = 1;
    }
    let ghost digits = if start == 1 { b@.skip(1) } else { b@ };
    assert(digits =~= b@.subrange(start as int, len as int));
    assert(parse_i32(b@) == digits_to_i32(negative, digits));
    if start == len {
        return None;
    }
    let mut acc: u64 = 0;
    let mut i: usize = start;
    while i < len
        invariant
            start <= i <= len,
            len == b@.len(),
            digits == b@.subrange(start as int, len as int),
            parse_i32(b@) == digits_to_i32(negative, digits),
            digits.len() > 0,
            acc <= 2147483648,
            acc == digits_value(digits.take(i - start)),
            forall|k: int| 0 <= k < i - start ==> is_digit(#[trigger] digits[k]),
        decreases len - i,
    {
        let c = b[i];
        if c < 48 || c > 57 {
            assert(!is_digit(digits[i - start]));
            return None;
        }
        assert(digits.take(i - start + 1).drop_last() =~= digits.take(i - start));
        assert(digits[i - start] == c);
        acc = acc * 10 + (c - 48) as u64;
        i = i + 1;
        assert(acc == digits_value(digits.take(i - start)));
        if acc > 2147483648 {
            proof {
                if forall|k: int| 0 <= k < digits.len() ==> is_digit(#[trigger] digits[k]) {
                    lemma_digits_value_grows(digits, i - start);
                }
            }
            return None;
        }
    }
    assert(digits.take(len - start) =~= digits);
    if negative {
        Some((0i64 - acc as i64) as i32)
    } else if acc <= 2147483647 {
        Some(acc as i32)
    } else {
        None
    }
}

/// Whether `filename` is a song path that can be opened (see [`valid_song_path`]).
pub fn is_valid_song_path(filename: &str) -> (r: bool)
    ensures
        r == valid_song_path(filename.spec_bytes()),
{
    let bytes = filename.as_bytes();
    let sep = find_separator(bytes);
    let mut k: usize = 0;
    while k < sep
        invariant
            k <= sep <= bytes@.len(),
            sep == separator_index(bytes@),
            bytes@ == filename.spec_bytes(),
            forall|j: int| 0 <= j < k ==> bytes@[j] != 0u8,
        decreases sep - k,
    {
        if bytes[k] == 0 {
            return false;
        }
        k = k + 1;
    }
    if sep < bytes.len() {
        let tail = vstd::slice::slice_subrange(bytes, sep + 1, bytes.len());
        assert(tail@ =~= bytes@.skip(sep + 1));
        parse_i32_bytes(tail).is_some()
    } else {
        true
    }
}

/// Position of the first separator in `bytes`, or its length.
fn find_separator(bytes: &[u8]) -> (r: usize)
    ensures
        r == separator_index(bytes@),
        r <= bytes@.len(),
{
    let mut i: usize = 0;
    while i < bytes.len()
        invariant
            i <= bytes@.len(),
            forall|j: int| 0 <= j < i ==> bytes@[j] != SUBSONG_SEPARATOR,
        decreases bytes@.len() - i,
    {
        if bytes[i] == SUBSONG_SEPARATOR {
            proof {
                lemma_separator_index(bytes@, i as int);
            }
            return i;
        }
        i = i + 1;
    }
    proof {
        lemma_separator_index(bytes@, i as int);
    }
    i
}

/// Splits a song path into the file name and the sub-song index.
pub fn split_song_path(filename: &str) -> (r: (&str, i32))
    requires
        valid_song_path(filename.spec_bytes()),
    ensures
        r.0.spec_bytes() == song_file_bytes(filename.spec_bytes()),
        Some(r.1) == subsong_index(filename.spec_bytes()),
{
    let bytes = filename.as_bytes();
    let sep = find_separator(bytes);
    if sep < bytes.len() {
        proof {
            is_char_boundary_iff_not_is_continuation_byte(bytes@, sep as int);
        }
        let (name, _rest) = filename.split_at(sep);
        let tail = vstd::slice::slice_subrange(bytes, sep + 1, bytes.len());
        assert(tail@ =~= bytes@.skip(sep + 1));
        let index = parse_i32_bytes(tail);
        assert(name.spec_bytes() =~= song_file_bytes(bytes@));
        match index {
            Some(i) => (name, i),
            None => (name, 0),
        }
    } else {
        assert(bytes@.take(sep as int) =~= bytes@);
        (filename, 0)
    }
}

/// The decimal digits of `n`, most significant first, without leading zeros
/// (`"0"` for zero): what `{}` formatting writes for a non-negative number.
pub open spec fn decimal_digits(n: nat) -> Seq<u8>
    decreases n,
{
    if n < 10 {
        seq![(48 + n) as u8]
    } else {
        decimal_digits(n / 10).push((48 + n % 10) as u8)
    }
}

/// The decimal text of `x`, as `{}` formatting writes it: a `-` before the
/// digits of a negative number.
pub open spec fn decimal_text(x: int) -> Seq<u8> {
    if x < 0 {
        seq![45u8] + decimal_digits((-x) as nat)
    } else {
        decimal_digits(x as nat)
    }
}

proof fn lemma_decimal_digits(n: nat)
    ensures
        decimal_digits(n).len() > 0,
        forall|i: int| 0 <= i < decimal_digits(n).len() ==> is_digit(#[trigger] decimal_digits(n)[i]),
        digits_value(decimal_digits(n)) == n,
    decreases n,
{
    if n >= 10 {
        let q = n / 10;
        let r = n % 10;
        assert(n == q * 10 + r) by (nonlinear_arith)
            requires
                q == n / 10,
                r == n % 10,
        ;
        lemma_decimal_digits(q);
        let d = decimal_digits(n);
        assert(d.drop_last() =~= decimal_digits(q));
        assert(0 <= r < 10);
        assert(d.last() == 48 + r);
        assert(digits_value(d) == digits_value(decimal_digits(q)) * 10 + r);
    } else {
        let d = decimal_digits(n);
        assert(d.drop_last() =~= Seq::<u8>::empty());
        assert(d.last() == 48 + n);
        assert(digits_value(d.drop_last()) == 0);
        assert(digits_value(d) == n);
    }
}

/// Parsing the decimal text of any `i32` gives that number back: every digit
/// counts at its decimal place, and a leading `-` negates.
pub proof fn lemma_parse_i32_of_decimal_text(x: i32)
    ensures
        parse_i32(decimal_text(x as int)) == Some(x),
{
    if x < 0 {
        let n = (-(x as int)) as nat;
        lemma_decimal_digits(n);
        let b = decimal_text(x as int);
        assert(b.skip(1) =~= decimal_digits(n));
        assert(b[0] == 45u8);
    } else {
        let n = x as nat;
        lemma_decimal_digits(n);
        let b = decimal_text(x as int);
        assert(is_digit(b[0]));
    }
}

/// Appending a digit to a run of digits multiplies its value by ten and adds
/// the digit: each digit weighs by its decimal place.
pub proof fn lemma_digits_value_append(d: Seq<u8>, c: u8)
    requires
        is_digit(c),
    ensures
        digits_value(d.push(c)) == 10 * digits_value(d) + (c - 48),
{
    assert(d.push(c).drop_last() =~= d);
}

/// A leading `+` changes nothing: parsing `+` followed by the decimal text
/// of a non-negative `i32` gives that number.
pub proof fn lemma_parse_i32_plus_sign(x: i32)
    requires
        x >= 0,
    ensures
        parse_i32(seq![43u8] + decimal_text(x as int)) == Some(x),
{
    let n = x as nat;
    lemma_decimal_digits(n);
    let b = seq![43u8] + decimal_text(x as int);
    assert(b.skip(1) =~= decimal_digits(n));
}

/// The decimal text of a number outside the range of `i32` does not parse.
pub proof fn lemma_parse_i32_out_of_range(x: int)
    requires
        x < i32::MIN || x > i32::MAX,
    ensures
        parse_i32(decimal_text(x)) is None,
{
    if x < 0 {
        let n = (-x) as nat;
        lemma_decimal_digits(n);
        let b = decimal_text(x);
        assert(b.skip(1) =~= decimal_digits(n));
        assert(b[0] == 45u8);
    } else {
        lemma_decimal_digits(x as nat);
        assert(is_digit(decimal_text(x)[0]));
    }
}

/// Text that is empty, is only a sign, or holds a byte other than a digit
/// (past a leading sign) does not parse.
pub proof fn lemma_parse_i32_rejects(b: Seq<u8>)
    requires
        b.len() == 0 || (b.len() == 1 && (b[0] == 43u8 || b[0] == 45u8)) || exists|i: int|
            0 <= i < b.len() && !is_digit(#[trigger] b[i]) && !(i == 0 && (b[0] == 43u8 || b[0]
                == 45u8)),
    ensures
        parse_i32(b) is None,
{
    if b.len() > 0 && !(b.len() == 1 && (b[0] == 43u8 || b[0] == 45u8)) {
        let i = choose|i: int|
            0 <= i < b.len() && !is_digit(#[trigger] b[i]) && !(i == 0 && (b[0] == 43u8 || b[0]
                == 45u8));
        if b[0] == 43u8 || b[0] == 45u8 {
            assert(!is_digit(b.skip(1)[i - 1]));
        } else {
            assert(!is_digit(b[i]));
        }
    }
}

/// Every file name that holds neither a NUL byte nor a separator is a song
/// path of its own, with sub-song 0; followed by a separator and the decimal
/// text of any `i32`, it is a song path naming that sub-song of that file.
pub proof fn lemma_song_path_of_name(name: Seq<u8>, x: i32)
    requires
        forall|k: int| 0 <= k < name.len() ==> #[trigger] name[k] != 0u8 && name[k]
            != SUBSONG_SEPARATOR,
    ensures
        valid_song_path(name),
        song_file_bytes(name) == name,
        subsong_index(name) == Some(0i32),
        valid_song_path(name + seq![SUBSONG_SEPARATOR] + decimal_text(x as int)),
        song_file_bytes(name + seq![SUBSONG_SEPARATOR] + decimal_text(x as int)) == name,
        subsong_index(name + seq![SUBSONG_SEPARATOR] + decimal_text(x as int)) == Some(x),
{
    lemma_separator_index(name, name.len() as int);
    assert(name.take(name.len() as int) =~= name);
    let b = name + seq![SUBSONG_SEPARATOR] + decimal_text(x as int);
    assert forall|j: int| 0 <= j < name.len() implies b[j] != SUBSONG_SEPARATOR by {
        assert(b[j] == name[j]);
    }
    assert(b[name.len() as int] == SUBSONG_SEPARATOR);
    lemma_separator_index(b, name.len() as int);
    assert(b.take(name.len() as int) =~= name);
    assert(b.skip(name.len() as int + 1) =~= decimal_text(x as int));
    lemma_parse_i32_of_decimal_text(x);
    assert forall|k: int| 0 <= k < separator_index(b) implies b[k] != 0u8 by {
        assert(b[k] == name[k]);
    }
}

/// A song path splits at its first separator: whatever follows it is the
/// index text, so a second separator makes the path invalid.
pub proof fn lemma_split_at_first_separator(name: Seq<u8>, rest: Seq<u8>, j: int)
    requires
        forall|k: int| 0 <= k < name.len() ==> #[trigger] name[k] != SUBSONG_SEPARATOR,
        0 <= j < rest.len(),
        rest[j] == SUBSONG_SEPARATOR,
    ensures
        song_file_bytes(name + seq![SUBSONG_SEPARATOR] + rest) == name,
        !valid_song_path(name + seq![SUBSONG_SEPARATOR] + rest),
{
    let b = name + seq![SUBSONG_SEPARATOR] + rest;
    assert forall|k: int| 0 <= k < name.len() implies b[k] != SUBSONG_SEPARATOR by {
        assert(b[k] == name[k]);
    }
    assert(b[name.len() as int] == SUBSONG_SEPARATOR);
    lemma_separator_index(b, name.len() as int);
    assert(b.take(name.len() as int) =~= name);
    assert(b.skip(name.len() as int + 1) =~= rest);
    assert(!is_digit(rest[j]));
    lemma_parse_i32_rejects(rest);
}

/// A NUL byte in the file name makes a song path invalid.
pub proof fn lemma_nul_in_name_is_invalid(b: Seq<u8>, k: int)
    requires
        0 <= k < b.len(),
        b[k] == 0u8,
        forall|j: int| 0 <= j < k ==> b[j] != SUBSONG_SEPARATOR,
    ensures
        !valid_song_path(b),
{

    if exists|c: int| is_first_separator(b, c) {
        let c = choose|c: int| is_first_separator(b, c);
        assert(c > k) by {
            if c <= k {
                if c < k {
                    assert(b[c] != SUBSONG_SEPARATOR);
                }
            }
        }
    }
}

} // verus!
