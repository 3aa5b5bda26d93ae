use vstd::prelude::*;

verus! {

/// Character-for-character equality of two string slices.
pub fn str_eq(a: &str, b: &str) -> (r: bool)
    ensures
        r == (a@ == b@),
{
    let alen = a.unicode_len();
    let blen = b.unicode_len();
    if alen != blen {
        assert(a@ != b@);
        return false;
    }
    let mut i: usize = 0;
    while i < alen
        invariant
            alen == a@.len(),
            blen == b@.len(),
            alen == blen,
            i <= alen,
            forall|j: int| 0 <= j < i ==> a@[j] == b@[j],
        decreases alen - i,
    {
        if a.get_char(i) != b.get_char(i) {
            assert(a@ != b@);
            return false;
        }
        i = i + 1;
    }
    assert(a@ =~= b@);
    true
}

/// Does the string hold the character anywhere?
pub fn contains_char(s: &str, c: char) -> (r: bool)
    ensures
        r == s@.contains(c),
{
    let len = s.unicode_len();
    let mut i: usize = 0;
    while i < len
        invariant
            len == s@.len(),
            i <= len,
            forall|j: int| 0 <= j < i ==> s@[j] != c,
        decreases len - i,
    {
        if s.get_char(i) == c {
            assert(s@.contains(c));
            return true;
        }
        i = i + 1;
    }
    assert(forall|j: int| 0 <= j < s@.len() ==> s@[j] != c);
    false
}

/// A decimal digit.
pub open spec fn is_digit_char(c: char) -> bool {
    48 <= c as u32 && c as u32 <= 57
}

/// The numeric value of one decimal digit.
pub open spec fn digit_val(c: char) -> int {
    c as u32 - 48
}

/// Is every character of the sequence a decimal digit?
pub open spec fn all_digits(s: Seq<char>) -> bool {
    forall|i: int| 0 <= i < s.len() ==> is_digit_char(#[trigger] s[i])
}

/// Is every character of the sequence in the ASCII range?
pub open spec fn all_ascii(s: Seq<char>) -> bool {
    forall|i: int| 0 <= i < s.len() ==> (#[trigger] s[i]) as u32 <= 127
}

/// Does every character of the string lie in the ASCII range?
pub fn str_all_ascii(s: &str) -> (r: bool)
    ensures
        r == all_ascii(s@),
{
    let len = s.unicode_len();
    let mut i: usize = 0;
    while i < len
        invariant
            len == s@.len(),
            i <= len,
            forall|j: int| 0 <= j < i ==> (#[trigger] s@[j]) as u32 <= 127,
        decreases len - i,
    {
        let c = s.get_char(i);
        if c as u32 > 127 {
            assert(!all_ascii(s@));
            return false;
        }
        i = i + 1;
    }
    true
}

/// Is every character of the string a decimal digit?
pub fn str_all_digits(s: &str) -> (r: bool)
    ensures
        r == all_digits(s@),
{
    let len = s.unicode_len();
    let mut i: usize = 0;
    while i < len
        invariant
            len == s@.len(),
            i <= len,
            forall|j: int| 0 <= j < i ==> is_digit_char(#[trigger] s@[j]),
        decreases len - i,
    {
        let c = s.get_char(i);
        let v = c as u32;
        if v < 48 || v > 57 {
            assert(!is_digit_char(s@[i as int]));
            return false;
        }
        i = i + 1;
    }
    true
}

/// Ten to the given power.
pub open spec fn pow10(n: nat) -> int
    decreases n,
{
    if n == 0 {
        1
    } else {
        10 * pow10((n - 1) as nat)
    }
}

pub proof fn lemma_pow10_pos(n: nat)
    ensures
        pow10(n) >= 1,
    decreases n,
{
    if n > 0 {
        lemma_pow10_pos((n - 1) as nat);
    }
}

pub proof fn lemma_pow10_mono(a: nat, b: nat)
    requires
        a <= b,
    ensures
        pow10(a) <= pow10(b),
    decreases b,
{
    if a < b {
        lemma_pow10_mono(a, (b - 1) as nat);
        lemma_pow10_pos((b - 1) as nat);
        assert(pow10(b) == 10 * pow10((b - 1) as nat));
    }
}

pub proof fn lemma_pow10_19()
    ensures
        pow10(19) == 10_000_000_000_000_000_000,
{
    reveal_with_fuel(pow10, 21);
}

/// The numeric value of a string of decimal digits, most significant
/// digit first.
pub open spec fn digits_value(s: Seq<char>) -> int
    decreases s.len(),
{
    if s.len() == 0 {
        0
    } else {
        digits_value(s.drop_last()) * 10 + digit_val(s.last())
    }
}

pub proof fn lemma_digits_value_bounds(s: Seq<char>)
    requires
        all_digits(s),
    ensures
        0 <= digits_value(s) < pow10(s.len()),
    decreases s.len(),
{
    if s.len() > 0 {
        assert(forall|j: int| 0 <= j < s.len() - 1 ==> s.drop_last()[j] == s[j]);
        lemma_digits_value_bounds(s.drop_last());
        assert(pow10(s.len()) == 10 * pow10((s.len() - 1) as nat));
    }
}

pub proof fn lemma_digits_value_first_nonzero(s: Seq<char>)
    requires
        all_digits(s),
        s.len() > 0,
        digit_val(s[0]) >= 1,
    ensures
        digits_value(s) >= pow10((s.len() - 1) as nat),
    decreases s.len(),
{
    if s.len() == 1 {
        assert(s.last() == s[0]);
        assert(s.drop_last().len() == 0);
        assert(digits_value(s.drop_last()) == 0);
        assert(pow10(0) == 1);
    } else {
        assert(forall|j: int| 0 <= j < s.len() - 1 ==> s.drop_last()[j] == s[j]);
        lemma_digits_value_first_nonzero(s.drop_last());
        assert(pow10((s.len() - 1) as nat) == 10 * pow10((s.len() - 2) as nat));
        assert(digit_val(s.last()) >= 0);
    }
}

pub proof fn lemma_all_zeros_value(s: Seq<char>)
    requires
        forall|j: int| 0 <= j < s.len() ==> digit_val(#[trigger] s[j]) == 0,
    ensures
        digits_value(s) == 0,
    decreases s.len(),
{
    if s.len() > 0 {
        assert(forall|j: int| 0 <= j < s.len() - 1 ==> s.drop_last()[j] == s[j]);
        assert(forall|j: int|
            0 <= j < s.drop_last().len() ==> digit_val(#[trigger] s.drop_last()[j]) == 0);
        lemma_all_zeros_value(s.drop_last());
        assert(digit_val(s.last()) == 0);
    }
}

/// Leading zeros do not change the numeric value.
pub proof fn lemma_zeros_prefix_value(s: Seq<char>, k: int)
    requires
        0 <= k <= s.len(),
        forall|j: int| 0 <= j < k ==> digit_val(#[trigger] s[j]) == 0,
    ensures
        digits_value(s) == digits_value(s.skip(k)),
    decreases s.len(),
{
    if k == s.len() {
        lemma_all_zeros_value(s);
        assert(s.skip(k) =~= Seq::<char>::empty());
    } else if s.len() > 0 {
        assert(forall|j: int| 0 <= j < s.len() - 1 ==> s.drop_last()[j] == s[j]);
        lemma_zeros_prefix_value(s.drop_last(), k);
        assert(s.skip(k).drop_last() =~= s.drop_last().skip(k));
        assert(s.skip(k).last() == s.last());
    }
}

/// What parsing an optionally signed decimal string yields as an
/// unbounded integer: a single optional sign, then at least one digit,
/// all of them decimal.
pub open spec fn parsed_int(s: Seq<char>) -> Option<int> {
    if s.len() == 0 {
        None
    } else {
        let digits = if s[0] == '-' || s[0] == '+' {
            s.skip(1)
        } else {
            s
        };
        if digits.len() == 0 || !all_digits(digits) {
            None
        } else if s[0] == '-' {
            Some(-digits_value(digits))
        } else {
            Some(digits_value(digits))
        }
    }
}

/// Parsing into i64: as `parsed_int`, refused on overflow.
pub open spec fn parsed_i64(s: Seq<char>) -> Option<i64> {
    match parsed_int(s) {
        Some(v) => if i64::MIN <= v <= i64::MAX {
            Some(v as i64)
        } else {
            None
        },
        None => None,
    }
}

/// Parsing into i32: as `parsed_int`, refused on overflow.
pub open spec fn parsed_i32(s: Seq<char>) -> Option<i32> {
    match parsed_int(s) {
        Some(v) => if i32::MIN <= v <= i32::MAX {
            Some(v as i32)
        } else {
            None
        },
        None => None,
    }
}

/// Parse an optionally signed decimal string into an i64, exactly as
/// the standard library's integer parsing does: one optional sign, at
/// least one digit, nothing else, refused on overflow.
#[verifier::rlimit(100)]
pub fn parse_i64(s: &str) -> (r: Option<i64>)
    ensures
        r == parsed_i64(s@),
{
    let len = s.unicode_len();
    if len == 0 {
        return None;
    }
    let c0 = s.get_char(0);
    let signed = c0 == '-' || c0 == '+';
    let neg = c0 == '-';
    let start: usize = if signed {
        1
    } else {
        0
    };
    let ghost digits = if signed {
        s@.skip(1)
    } else {
        s@
    };
    proof {
        assert(digits =~= s@.subrange(start as int, len as int));
    }
    if start >= len {
        return None;
    }
    let mut i: usize = start;
    while i < len
        invariant
            len == s@.len(),
            start <= i <= len,
            start < len,
            signed == (s@[0] == '-' || s@[0] == '+'),
            signed ==> start == 1,
            !signed ==> start == 0,
            digits =~= s@.subrange(start as int, len as int),
            forall|j: int| start <= j < i ==> is_digit_char(#[trigger] s@[j]),
        decreases len - i,
    {
        let c = s.get_char(i);
        let v = c as u32;
        if v < 48 || v > 57 {
            proof {
                assert(digits[i - start] == s@[i as int]);
                assert(!all_digits(digits));
                assert(parsed_int(s@) is None);
            }
            return None;
        }
        i = i + 1;
    }
    proof {
        assert forall|j: int| 0 <= j < digits.len() implies is_digit_char(#[trigger] digits[j]) by {
            assert(digits[j] == s@[j + start]);
        }
    }
    let mut z: usize = start;
    while z < len && s.get_char(z) as u32 == 48
        invariant
            len == s@.len(),
            start <= z <= len,
            forall|j: int| start <= j < z ==> digit_val(#[trigger] s@[j]) == 0,
        decreases len - z,
    {
        z = z + 1;
    }
    let ghost zd = s@.subrange(z as int, len as int);
    proof {
        assert(zd =~= digits.skip(z - start));
        assert forall|j: int| 0 <= j < z - start implies digit_val(#[trigger] digits[j]) == 0 by {
            assert(digits[j] == s@[j + start]);
        }
        lemma_zeros_prefix_value(digits, z - start);
        assert(digits_value(digits) == digits_value(zd));
        assert(forall|j: int|
            0 <= j < zd.len() ==> zd[j] == #[trigger] digits[j + (z - start)]);
    }
    if len - z > 19 {
        proof {
            assert(z < len);
            assert(zd[0] == s@[z as int]);
            assert(is_digit_char(zd[0]) && zd[0] as u32 != 48);
            lemma_digits_value_first_nonzero(zd);
            lemma_pow10_mono(19, (zd.len() - 1) as nat);
            lemma_pow10_19();
            assert(digits_value(digits) >= 10_000_000_000_000_000_000);
        }
        return None;
    }
    let mut acc: u64 = 0;
    let mut p: usize = z;
    while p < len
        invariant
            len == s@.len(),
            z <= p <= len,
            len - z <= 19,
            zd =~= s@.subrange(z as int, len as int),
            all_digits(zd),
            acc == digits_value(zd.take(p - z)),
            acc < pow10((p - z) as nat),
        decreases len - p,
    {
        let c = s.get_char(p);
        proof {
            assert(zd[p - z] == s@[p as int]);
            assert(is_digit_char(s@[p as int]));
            lemma_pow10_mono((p - z + 1) as nat, 19);
            lemma_pow10_19();
            assert(pow10((p - z + 1) as nat) == 10 * pow10((p - z) as nat));
            assert(zd.take(p - z + 1).drop_last() =~= zd.take(p - z));
            assert(zd.take(p - z + 1).last() == zd[p - z]);
        }
        let d = (c as u32 - 48) as u64;
        acc = acc * 10 + d;
        p = p + 1;
    }
    proof {
        assert(zd.take(len - z) =~= zd);
        assert(acc == digits_value(zd));
        assert(acc == digits_value(digits));
        lemma_digits_value_bounds(digits);
    }
    if neg {
        if acc > 9_223_372_036_854_775_808u64 {
            return None;
        }
        if acc == 9_223_372_036_854_775_808u64 {
            return Some(i64::MIN);
        }
        Some(-(acc as i64))
    } else {
        if acc > 9_223_372_036_854_775_807u64 {
            return None;
        }
        Some(acc as i64)
    }
}

/// Parse an optionally signed decimal string into an i32, exactly as
/// the standard library's integer parsing does.
pub fn parse_i32(s: &str) -> (r: Option<i32>)
    ensures
        r == parsed_i32(s@),
{
    match parse_i64(s) {
        Some(v) => {
            if v < -2_147_483_648i64 || v > 2_147_483_647i64 {
                None
            } else {
                Some(v as i32)
            }
        },
        None => None,
    }
}

/// How many times the character occurs in the sequence.
pub open spec fn count_char(s: Seq<char>, c: char) -> nat
    decreases s.len(),
{
    if s.len() == 0 {
        0
    } else {
        (if s[0] == c {
            1nat
        } else {
            0nat
        }) + count_char(s.skip(1), c)
    }
}

/// The index of the character's first occurrence (meaningful when the
/// sequence holds one).
pub open spec fn first_idx_of(s: Seq<char>, c: char) -> int {
    choose|i: int|
        0 <= i < s.len() && s[i] == c && (forall|j: int| 0 <= j < i ==> s[j] != c)
}

/// A sequence with the first occurrence of the character removed, as
/// replacing its first occurrence by nothing leaves it.
pub open spec fn remove_first(s: Seq<char>, c: char) -> Seq<char> {
    if s.contains(c) {
        s.take(first_idx_of(s, c)) + s.skip(first_idx_of(s, c) + 1)
    } else {
        s
    }
}

/// Count the character's occurrences in the string.
pub fn str_count_char(s: &str, c: char) -> (r: usize)
    ensures
        r == count_char(s@, c),
{
    let len = s.unicode_len();
    let mut n: usize = 0;
    let mut i: usize = 0;
    proof {
        assert(s@.skip(0) =~= s@);
    }
    while i < len
        invariant
            len == s@.len(),
            i <= len,
            n <= i,
            count_char(s@, c) == n + count_char(s@.skip(i as int), c),
        decreases len - i,
    {
        proof {
            assert(s@.skip(i as int)[0] == s@[i as int]);
            assert(s@.skip(i as int).skip(1) =~= s@.skip(i as int + 1));
        }
        if s.get_char(i) == c {
            n = n + 1;
        }
        i = i + 1;
    }
    proof {
        assert(s@.skip(len as int) =~= Seq::<char>::empty());
    }
    n
}

/// The index of the character's first occurrence in the string, if any.
pub fn str_find_char(s: &str, c: char) -> (r: Option<usize>)
    ensures
        match r {
            Some(i) => i < s@.len() && s@[i as int] == c && i == first_idx_of(s@, c)
                && s@.contains(c),
            None => !s@.contains(c),
        },
{
    let len = s.unicode_len();
    let mut i: usize = 0;
    while i < len
        invariant
            len == s@.len(),
            i <= len,
            forall|j: int| 0 <= j < i ==> s@[j] != c,
        decreases len - i,
    {
        if s.get_char(i) == c {
            proof {
                assert(s@.contains(c));
                let k = first_idx_of(s@, c);
                assert(0 <= k < s@.len() && s@[k] == c && (forall|j: int|
                    0 <= j < k ==> s@[j] != c));
                assert(k == i);
            }
            return Some(i);
        }
        i = i + 1;
    }
    proof {
        if s@.contains(c) {
            let k = choose|k: int| 0 <= k < s@.len() && s@[k] == c;
            assert(s@[k] != c);
        }
    }
    None
}

/// The string with the first occurrence of the character removed, if
/// there is one.
pub fn str_remove_first(s: &str, c: char) -> (r: String)
    ensures
        r@ == remove_first(s@, c),
{
    let len = s.unicode_len();
    match str_find_char(s, c) {
        Some(i) => {
            let mut out = s.substring_char(0, i).to_owned();
            out.append(s.substring_char(i + 1, len));
            proof {
                assert(out@ =~= s@.take(i as int) + s@.skip(i as int + 1));
            }
            out
        },
        None => s.to_owned(),
    }
}

/// The character a decimal digit value prints as.
pub open spec fn digit_char(d: int) -> char {
    if d == 0 {
        '0'
    } else if d == 1 {
        '1'
    } else if d == 2 {
        '2'
    } else if d == 3 {
        '3'
    } else if d == 4 {
        '4'
    } else if d == 5 {
        '5'
    } else if d == 6 {
        '6'
    } else if d == 7 {
        '7'
    } else if d == 8 {
        '8'
    } else {
        '9'
    }
}

/// The decimal rendering of a non-negative integer, most significant
/// digit first, no leading zeros (a lone zero for 0).
pub open spec fn dec_digits(n: int) -> Seq<char>
    decreases n,
{
    if n < 10 {
        seq![digit_char(n)]
    } else {
        dec_digits(n / 10).push(digit_char(n % 10))
    }
}

/// The decimal rendering of a signed integer, as the standard
/// library's integer formatting prints it.
pub open spec fn dec_string(n: int) -> Seq<char> {
    if n < 0 {
        seq!['-'] + dec_digits(-n)
    } else {
        dec_digits(n)
    }
}

/// One decimal digit as a string slice.
fn digit_str(d: u64) -> (r: &'static str)
    requires
        d < 10,
    ensures
        r@ =~= seq![digit_char(d as int)],
{
    let table = "0123456789";
    proof {
        reveal_strlit("0123456789");
    }
    let r = table.substring_char(d as usize, d as usize + 1);
    proof {
        assert(r@ =~= seq![digit_char(d as int)]);
    }
    r
}

/// Render a u64 in decimal.
pub fn u64_dec_digits(n: u64) -> (r: String)
    ensures
        r@ == dec_digits(n as int),
    decreases n,
{
    if n < 10 {
        digit_str(n).to_owned()
    } else {
        let mut s = u64_dec_digits(n / 10);
        s.append(digit_str(n % 10));
        proof {
            assert(s@ =~= dec_digits((n / 10) as int).push(digit_char((n % 10) as int)));
        }
        s
    }
}

/// Render an i64 in decimal, sign included, exactly as the standard
/// library formats it.
pub fn i64_dec_string(n: i64) -> (r: String)
    ensures
        r@ == dec_string(n as int),
{
    if n >= 0 {
        u64_dec_digits(n as u64)
    } else {
        let mag: u64 = if n == i64::MIN {
            9_223_372_036_854_775_808u64
        } else {
            (-n) as u64
        };
        let mut s = "-".to_owned();
        let rest = u64_dec_digits(mag);
        s.append(rest.as_str());
        proof {
            reveal_strlit("-");
            assert(mag as int == -(n as int));
            assert(s@ =~= seq!['-'] + dec_digits(mag as int));
        }
        s
    }
}

} // verus!
