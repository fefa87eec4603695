//! Frame file names: the fixed naming convention `ffout_<4-digit index>.png`,
//! and the parsing of an index back out of a file name's trailing numeric
//! suffix.

use vstd::prelude::*;
use vstd::string::StrSliceExecFns;
use vstd::string::StringExecFns;

verus! {

/// Whether a character is a decimal digit.
pub open spec fn is_digit(c: char) -> bool {
    48 <= c as u32 <= 57
}

/// The numeric value of a digit character.
pub open spec fn digit_val(c: char) -> int {
    c as u32 - 48
}

/// The digit character for a value below ten.
pub open spec fn digit_char(d: int) -> char {
    if d == 0 {
        '0'
    } else if d == 1 {
        '1'
    } else if d == 2 {
        '2'
    } else if d == 3 {
        '3'
    } else if d == 4 {
        '4'
    } else if d == 5 {
        '5'
    } else if d == 6 {
        '6'
    } else if d == 7 {
        '7'
    } else if d == 8 {
        '8'
    } else {
        '9'
    }
}

/// The decimal digit string of a non-negative number, most significant digit
/// first.
pub open spec fn spec_digits(n: int) -> Seq<char>
    decreases n,
{
    if n < 10 {
        seq![digit_char(n)]
    } else {
        spec_digits(n / 10).push(digit_char(n % 10))
    }
}

/// A digit string left-padded with zeros up to `width` characters; a longer
/// string stays as it is.
pub open spec fn spec_zero_pad(s: Seq<char>, width: int) -> Seq<char>
    decreases width - s.len(),
{
    if s.len() >= width {
        s
    } else {
        spec_zero_pad(seq!['0'].add(s), width)
    }
}

/// The frame file name the extraction step produces for a given index:
/// `ffout_` then the index as at least four zero-padded digits, then `.png`.
pub open spec fn spec_frame_file_name(n: int) -> Seq<char> {
    "ffout_"@ + spec_zero_pad(spec_digits(n), 4) + ".png"@
}

/// One digit as a string slice.
fn digit_str(d: u64) -> (s: &'static str)
    requires
        d < 10,
    ensures
        s@ =~= seq![digit_char(d as int)],
{
    let s = match d {
        0 => "0",
        1 => "1",
        2 => "2",
        3 => "3",
        4 => "4",
        5 => "5",
        6 => "6",
        7 => "7",
        8 => "8",
        _ => "9",
    };
    proof {
        reveal_strlit("0");
        reveal_strlit("1");
        reveal_strlit("2");
        reveal_strlit("3");
        reveal_strlit("4");
        reveal_strlit("5");
        reveal_strlit("6");
        reveal_strlit("7");
        reveal_strlit("8");
        reveal_strlit("9");
    }
    s
}

/// Formats a number in decimal.
pub fn decimal_digits(n: u64) -> (s: String)
    ensures
        s@ == spec_digits(n as int),
    decreases n,
{
    if n < 10 {
        String::from_str(digit_str(n))
    } else {
        let mut s = decimal_digits(n / 10);
        s.append(digit_str(n % 10));
        proof {
            assert(s@ =~= spec_digits(n as int));
        }
        s
    }
}

/// Left-pads a digit string with zeros to at least four characters, the way
/// a width-4 zero-padded format does.
pub fn zero_pad4(s: String) -> (r: String)
    ensures
        r@ == spec_zero_pad(s@, 4),
{
    let ghost orig: Seq<char> = s@;
    let mut out = s;
    while out.as_str().unicode_len() < 4
        invariant
            spec_zero_pad(out@, 4) == spec_zero_pad(orig, 4),
        decreases 4 - out@.len(),
    {
        let mut padded = String::from_str("0");
        padded.append(out.as_str());
        proof {
            reveal_strlit("0");
            assert(padded@ =~= seq!['0'].add(out@));
        }
        out = padded;
    }
    out
}

/// The position of the last `.` in a name, or -1 when there is none.
pub open spec fn spec_last_dot(s: Seq<char>) -> int
    decreases s.len(),
{
    if s.len() == 0 {
        -1
    } else if s.last() == '.' {
        s.len() - 1
    } else {
        spec_last_dot(s.drop_last())
    }
}

/// The name without its extension: everything before the last `.`, or the
/// whole name when it has no dot.
pub open spec fn spec_stem(s: Seq<char>) -> Seq<char> {
    let d = spec_last_dot(s);
    if d >= 0 {
        s.subrange(0, d)
    } else {
        s
    }
}

/// Where the maximal run of digits at the end of the string starts (its
/// length when the string ends in no digit).
pub open spec fn spec_digit_suffix_start(s: Seq<char>) -> int
    decreases s.len(),
{
    if s.len() == 0 {
        0
    } else if is_digit(s.last()) {
        spec_digit_suffix_start(s.drop_last())
    } else {
        s.len() as int
    }
}

/// The number a digit string denotes, most significant digit first.
pub open spec fn spec_digits_val(s: Seq<char>) -> int
    decreases s.len(),
{
    if s.len() == 0 {
        0
    } else {
        spec_digits_val(s.drop_last()) * 10 + digit_val(s.last())
    }
}

/// The frame index encoded in a file name: the value of the maximal digit
/// suffix of the name's stem, or nothing when the stem ends in no digit.
pub open spec fn spec_parse_frame_index(name: Seq<char>) -> Option<int> {
    let stem = spec_stem(name);
    let start = spec_digit_suffix_start(stem);
    if start == stem.len() {
        Option::None
    } else {
        Option::Some(spec_digits_val(stem.subrange(start, stem.len() as int)))
    }
}

/// A digit string denotes a non-negative number.
proof fn lemma_digits_val_nonneg(s: Seq<char>)
    requires
        forall|i: int| 0 <= i < s.len() ==> is_digit(#[trigger] s[i]),
    ensures
        0 <= spec_digits_val(s),
    decreases s.len(),
{
    if s.len() > 0 {
        lemma_digits_val_nonneg(s.drop_last());
        let v = spec_digits_val(s.drop_last());
        assert(0 <= v * 10 + digit_val(s.last()));
    }
}

/// Dropping digits from the end of a digit string can only shrink its value.
proof fn lemma_digits_val_prefix(s: Seq<char>, m: int)
    requires
        0 <= m <= s.len(),
        forall|i: int| 0 <= i < s.len() ==> is_digit(#[trigger] s[i]),
    ensures
        spec_digits_val(s.subrange(0, m)) <= spec_digits_val(s),
    decreases s.len() - m,
{
    if m == s.len() {
        assert(s.subrange(0, m) =~= s);
    } else {
        lemma_digits_val_prefix(s, m + 1);
        let p = s.subrange(0, m + 1);
        assert(p.drop_last() =~= s.subrange(0, m));
        assert(forall|i: int| 0 <= i < p.len() ==> is_digit(#[trigger] p[i]));
        lemma_digits_val_nonneg(p.drop_last());
        assert(spec_digits_val(p) == spec_digits_val(p.drop_last()) * 10 + digit_val(p.last()));
        assert(spec_digits_val(p.drop_last()) * 10 >= spec_digits_val(p.drop_last()))
            by (nonlinear_arith)
            requires
                spec_digits_val(p.drop_last()) >= 0,
        ;
    }
}

/// Whether a character is a decimal digit.
fn is_digit_char(c: char) -> (r: bool)
    ensures
        r == is_digit(c),
{
    let u = c as u32;
    48 <= u && u <= 57
}

/// Parses the frame index out of a file name's trailing numeric suffix, the
/// way the legacy selector reads indices back out of extracted frame files.
/// Returns nothing when the stem ends in no digit or the value does not fit
/// in 64 bits.
pub fn parse_frame_index(name: &str) -> (r: Option<u64>)
    ensures
        match r {
            Option::Some(v) => spec_parse_frame_index(name@) == Option::Some(v as int),
            Option::None => spec_parse_frame_index(name@) is None || (
            spec_parse_frame_index(name@) matches Option::Some(v) && v > u64::MAX),
        },
        r is Some <==> (spec_parse_frame_index(name@) matches Option::Some(v) && v <= u64::MAX),
{
    let ghost s = name@;
    let n = name.unicode_len();
    // Find the last dot, scanning forward and remembering the latest one.
    let mut dot: Option<usize> = None;
    let mut i: usize = 0;
    while i < n
        invariant
            s == name@,
            0 <= i <= n,
            n == s.len(),
            match dot {
                Option::Some(d) => 0 <= d < i && spec_last_dot(s.subrange(0, i as int)) == d,
                Option::None => spec_last_dot(s.subrange(0, i as int)) == -1,
            },
        decreases n - i,
    {
        let c = name.get_char(i);
        proof {
            assert(s.subrange(0, i + 1 as int).drop_last() =~= s.subrange(0, i as int));
            assert(s.subrange(0, i + 1 as int).last() == s[i as int]);
        }
        if c == '.' {
            dot = Some(i);
        }
        i = i + 1;
    }
    proof {
        assert(s.subrange(0, n as int) =~= s);
    }
    let stem_len: usize = match dot {
        Some(d) => d,
        None => n,
    };
    let ghost stem = spec_stem(s);
    proof {
        if spec_last_dot(s) >= 0 {
            assert(stem =~= s.subrange(0, stem_len as int));
        } else {
            assert(stem =~= s.subrange(0, stem_len as int));
        }
    }
    // Find where the digit suffix of the stem starts.
    let mut k: usize = stem_len;
    while k > 0 && is_digit_char(name.get_char(k - 1))
        invariant
            s == name@,
            0 <= k <= stem_len <= n,
            n == s.len(),
            stem == s.subrange(0, stem_len as int),
            spec_digit_suffix_start(stem) == spec_digit_suffix_start(s.subrange(0, k as int)),
            forall|j: int| k <= j < stem_len ==> is_digit(#[trigger] s[j]),
        decreases k,
    {
        proof {
            assert(s.subrange(0, k as int).drop_last() =~= s.subrange(0, k - 1 as int));
            assert(s.subrange(0, k as int).last() == s[k - 1 as int]);
        }
        k = k - 1;
    }
    proof {
        if k > 0 {
            assert(s.subrange(0, k as int).last() == s[k - 1 as int]);
        }
        assert(spec_digit_suffix_start(stem) == k);
    }
    if k == stem_len {
        return None;
    }
    let ghost digits = stem.subrange(k as int, stem_len as int);
    proof {
        assert(forall|i: int| 0 <= i < digits.len() ==> is_digit(#[trigger] digits[i]));
    }
    // Accumulate the value, reporting overflow past u64.
    let mut val: u64 = 0;
    let mut m: usize = k;
    while m < stem_len
        invariant
            s == name@,
            k <= m < stem_len <= n || (k < stem_len && m == stem_len),
            n == s.len(),
            stem == s.subrange(0, stem_len as int),
            stem == spec_stem(s),
            spec_digit_suffix_start(stem) == k,
            digits == stem.subrange(k as int, stem_len as int),
            forall|i: int| 0 <= i < digits.len() ==> is_digit(#[trigger] digits[i]),
            forall|j: int| k <= j < stem_len ==> is_digit(#[trigger] s[j]),
            val == spec_digits_val(digits.subrange(0, m - k)),
        decreases stem_len - m,
    {
        let c = name.get_char(m);
        let d: u64 = (c as u32 as u64) - 48;
        proof {
            assert(digits.subrange(0, m + 1 - k).drop_last() =~= digits.subrange(0, m - k));
            assert(digits.subrange(0, m + 1 - k).last() == s[m as int]);
            lemma_digits_val_nonneg(digits.subrange(0, m + 1 - k));
            lemma_digits_val_nonneg(digits.subrange(0, m - k));
        }
        let next = match val.checked_mul(10) {
            Some(t) => t.checked_add(d),
            None => None,
        };
        match next {
            Some(v) => {
                val = v;
            },
            None => {
                proof {
                    lemma_digits_val_prefix(digits, m + 1 - k);
                }
                return None;
            },
        }
        m = m + 1;
    }
    proof {
        assert(digits.subrange(0, stem_len - k) =~= digits);
    }
    Some(val)
}

/// Builds the file name of the frame with the given index, following the
/// naming convention of the extraction step.
pub fn frame_file_name(index: u64) -> (name: String)
    ensures
        name@ == spec_frame_file_name(index as int),
{
    let digits = decimal_digits(index);
    let padded = zero_pad4(digits);
    let mut name = String::from_str("ffout_");
    name.append(padded.as_str());
    name.append(".png");
    proof {
        assert(name@ =~= spec_frame_file_name(index as int));
    }
    name
}

/// A string starts with a prefix.
pub open spec fn spec_starts_with(s: Seq<char>, p: Seq<char>) -> bool {
    s.len() >= p.len() && s.subrange(0, p.len() as int) == p
}

/// A string ends with a suffix.
pub open spec fn spec_ends_with(s: Seq<char>, p: Seq<char>) -> bool {
    s.len() >= p.len() && s.subrange(s.len() - p.len(), s.len() as int) == p
}

/// Tests whether `s` starts with `p`.
pub fn str_starts_with(s: &str, p: &str) -> (r: bool)
    ensures
        r == spec_starts_with(s@, p@),
{
    let n = s.unicode_len();
    let m = p.unicode_len();
    if n < m {
        return false;
    }
    let mut i: usize = 0;
    while i < m
        invariant
            0 <= i <= m <= n,
            n == s@.len(),
            m == p@.len(),
            forall|j: int| 0 <= j < i ==> s@[j] == p@[j],
        decreases m - i,
    {
        if s.get_char(i) != p.get_char(i) {
            proof {
                assert(s@.subrange(0, m as int)[i as int] == s@[i as int]);
            }
            return false;
        }
        i = i + 1;
    }
    proof {
        assert(s@.subrange(0, m as int) =~= p@);
    }
    true
}

/// Tests whether `s` ends with `p`.
pub fn str_ends_with(s: &str, p: &str) -> (r: bool)
    ensures
        r == spec_ends_with(s@, p@),
{
    let n = s.unicode_len();
    let m = p.unicode_len();
    if n < m {
        return false;
    }
    let off = n - m;
    let mut i: usize = 0;
    while i < m
        invariant
            0 <= i <= m <= n,
            off == n - m,
            n == s@.len(),
            m == p@.len(),
            forall|j: int| 0 <= j < i ==> s@[off + j] == p@[j],
        decreases m - i,
    {
        if s.get_char(off + i) != p.get_char(i) {
            proof {
                assert(s@.subrange(off as int, n as int)[i as int] == s@[off + i]);
            }
            return false;
        }
        i = i + 1;
    }
    proof {
        assert(s@.subrange(off as int, n as int) =~= p@);
    }
    true
}

/// The name a finished composite is stored under: the fixed prefix, a
/// timestamp, and the PNG extension.
pub open spec fn spec_is_long_exposure_image_name(s: Seq<char>) -> bool {
    spec_starts_with(s, "long_exposure_image_"@) && spec_ends_with(s, ".png"@)
}

/// Tests whether a file name is a stored composite's name.
pub fn is_long_exposure_image_name(name: &str) -> (r: bool)
    ensures
        r == spec_is_long_exposure_image_name(name@),
{
    str_starts_with(name, "long_exposure_image_") && str_ends_with(name, ".png")
}

/// Finds the first composite image name in a directory listing.
pub fn find_long_exposure_image(listing: &Vec<String>) -> (r: Option<usize>)
    ensures
        match r {
            Option::Some(i) => i < listing@.len() && spec_is_long_exposure_image_name(
                listing@[i as int]@,
            ) && forall|j: int|
                0 <= j < i ==> !spec_is_long_exposure_image_name((#[trigger] listing@[j])@),
            Option::None => forall|j: int|
                0 <= j < listing@.len() ==> !spec_is_long_exposure_image_name(
                    (#[trigger] listing@[j])@,
                ),
        },
{
    let mut i: usize = 0;
    while i < listing.len()
        invariant
            0 <= i <= listing@.len(),
            forall|j: int|
                0 <= j < i ==> !spec_is_long_exposure_image_name((#[trigger] listing@[j])@),
        decreases listing@.len() - i,
    {
        if is_long_exposure_image_name(listing[i].as_str()) {
            return Some(i);
        }
        i = i + 1;
    }
    None
}

/// Finds the first file in a listing that belongs to a project: the one whose
/// name starts with the project identifier.
pub fn find_upload_for_project(listing: &Vec<String>, project_id: &str) -> (r: Option<usize>)
    ensures
        match r {
            Option::Some(i) => i < listing@.len() && spec_starts_with(
                listing@[i as int]@,
                project_id@,
            ) && forall|j: int|
                0 <= j < i ==> !spec_starts_with((#[trigger] listing@[j])@, project_id@),
            Option::None => forall|j: int|
                0 <= j < listing@.len() ==> !spec_starts_with(
                    (#[trigger] listing@[j])@,
                    project_id@,
                ),
        },
{
    let mut i: usize = 0;
    while i < listing.len()
        invariant
            0 <= i <= listing@.len(),
            forall|j: int| 0 <= j < i ==> !spec_starts_with((#[trigger] listing@[j])@, project_id@),
        decreases listing@.len() - i,
    {
        if str_starts_with(listing[i].as_str(), project_id) {
            return Some(i);
        }
        i = i + 1;
    }
    None
}

} // verus!
