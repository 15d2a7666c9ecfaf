//! Character and string helpers shared by the parser and the resolver.
//!
//! Everything here works on `Seq<char>` views; the only trusted item is a
//! thin wrapper over `String::push`.

use vstd::prelude::*;
use vstd::string::*;

verus! {

/// The characters stripped from the ends of an input line before parsing:
/// those with the Unicode White_Space property, the set `str::trim` strips.
pub open spec fn spec_is_space(c: char) -> bool {
    let n = c as int;
    (0x09 <= n && n <= 0x0D) || n == 0x20 || n == 0x85 || n == 0xA0 || n == 0x1680 || (0x2000 <= n
        && n <= 0x200A) || n == 0x2028 || n == 0x2029 || n == 0x202F || n == 0x205F || n == 0x3000
}

pub fn is_space(c: char) -> (b: bool)
    ensures
        b == spec_is_space(c),
{
    let n = c as u32;
    (0x09 <= n && n <= 0x0D) || n == 0x20 || n == 0x85 || n == 0xA0 || n == 0x1680 || (0x2000 <= n
        && n <= 0x200A) || n == 0x2028 || n == 0x2029 || n == 0x202F || n == 0x205F || n == 0x3000
}

pub open spec fn spec_is_digit(c: char) -> bool {
    '0' <= c && c <= '9'
}

pub fn is_digit(c: char) -> (b: bool)
    ensures
        b == spec_is_digit(c),
{
    '0' <= c && c <= '9'
}

/// Numeric value of one decimal digit.
pub open spec fn spec_digit_val(c: char) -> nat
    recommends
        spec_is_digit(c),
{
    (c as nat - '0' as nat) as nat
}

/// Value of a run of decimal digits, most significant first.
pub open spec fn spec_digits_val(s: Seq<char>) -> nat
    decreases s.len(),
{
    if s.len() == 0 {
        0
    } else {
        spec_digits_val(s.drop_last()) * 10 + spec_digit_val(s.last())
    }
}

pub open spec fn all_digits(s: Seq<char>) -> bool {
    forall|i: int| 0 <= i < s.len() ==> spec_is_digit(#[trigger] s[i])
}

/// Relies on `String::push`: the new string is the old one with the
/// character appended.
#[verifier::external_body]
pub fn string_push(s: &mut String, c: char)
    ensures
        final(s)@ == old(s)@.push(c),
{
    s.push(c);
}

/// The characters of a string slice, in order.
pub fn str_to_chars(s: &str) -> (v: Vec<char>)
    ensures
        v@ == s@,
{
    let n: usize = s.unicode_len();
    let mut v: Vec<char> = Vec::new();
    let mut i: usize = 0;
    while i < n
        invariant
            i <= n,
            n == s@.len(),
            v@ == s@.take(i as int),
        decreases n - i,
    {
        let c = s.get_char(i);
        v.push(c);
        assert(s@.take(i + 1 as int) =~= s@.take(i as int).push(s@[i as int]));
        i = i + 1;
    }
    assert(s@.take(n as int) =~= s@);
    v
}

/// A `String` holding exactly the given characters.
pub fn chars_to_string(v: &Vec<char>) -> (s: String)
    ensures
        s@ == v@,
{
    let mut s = String::new();
    let mut i: usize = 0;
    while i < v.len()
        invariant
            i <= v@.len(),
            s@ == v@.take(i as int),
        decreases v@.len() - i,
    {
        string_push(&mut s, v[i]);
        assert(v@.take(i + 1 as int) =~= v@.take(i as int).push(v@[i as int]));
        i = i + 1;
    }
    assert(v@.take(v@.len() as int) =~= v@);
    s
}

/// A line with leading and trailing whitespace removed.
pub open spec fn spec_trim(s: Seq<char>) -> Seq<char>
    decreases s.len(),
{
    if s.len() == 0 {
        s
    } else if spec_is_space(s[0]) {
        spec_trim(s.drop_first())
    } else if spec_is_space(s.last()) {
        spec_trim(s.drop_last())
    } else {
        s
    }
}

/// Removes leading and trailing whitespace characters.
pub fn trim_chars(v: &Vec<char>) -> (t: Vec<char>)
    ensures
        t@ == spec_trim(v@),
{
    let n: usize = v.len();
    proof {
        assert(v@.subrange(0, n as int) =~= v@);
    }
    let mut lo: usize = 0;
    while lo < n && is_space(v[lo])
        invariant
            lo <= n,
            n == v@.len(),
            spec_trim(v@) == spec_trim(v@.subrange(lo as int, n as int)),
        decreases n - lo,
    {
        proof {
            let s = v@.subrange(lo as int, n as int);
            assert(s.drop_first() =~= v@.subrange(lo + 1 as int, n as int));
        }
        lo = lo + 1;
    }
    let mut hi: usize = n;
    while hi > lo && is_space(v[hi - 1])
        invariant
            lo <= hi <= n,
            n == v@.len(),
            lo < n ==> !spec_is_space(v@[lo as int]),
            spec_trim(v@) == spec_trim(v@.subrange(lo as int, hi as int)),
        decreases hi,
    {
        proof {
            let s = v@.subrange(lo as int, hi as int);
            assert(s.drop_last() =~= v@.subrange(lo as int, hi - 1 as int));
        }
        hi = hi - 1;
    }
    proof {
        let s = v@.subrange(lo as int, hi as int);
        assert(spec_trim(s) == s);
    }
    let mut t: Vec<char> = Vec::new();
    let mut i: usize = lo;
    while i < hi
        invariant
            lo <= i <= hi <= n,
            n == v@.len(),
            t@ == v@.subrange(lo as int, i as int),
        decreases hi - i,
    {
        t.push(v[i]);
        assert(v@.subrange(lo as int, i + 1 as int) =~= v@.subrange(lo as int, i as int).push(
            v@[i as int],
        ));
        i = i + 1;
    }
    t
}

/// The value a token stands for when it fully parses as a nonnegative
/// `i32`: how the parser decides whether a token before `>` names a source
/// descriptor.  A leading `+` is accepted as `i32` parsing accepts it; a
/// leading `-` is not, since a source descriptor is never negative.
pub open spec fn spec_token_fd(s: Seq<char>) -> Option<int> {
    if s.len() > 0 && s[0] == '+' {
        let d = s.drop_first();
        if d.len() > 0 && all_digits(d) && spec_digits_val(d) <= i32::MAX {
            Some(spec_digits_val(d) as int)
        } else {
            None
        }
    } else if s.len() > 0 && all_digits(s) && spec_digits_val(s) <= i32::MAX {
        Some(spec_digits_val(s) as int)
    } else {
        None
    }
}

/// Evaluates a digit run left to right; `acc` mirrors `spec_digits_val` of the
/// prefix read so far unless that value has already exceeded `i32::MAX`, which
/// the `big` flag records.
fn digits_val_exec(v: &Vec<char>) -> (r: Option<u64>)
    requires
        all_digits(v@),
    ensures
        match r {
            Some(n) => spec_digits_val(v@) <= i32::MAX && n == spec_digits_val(v@),
            None => spec_digits_val(v@) > i32::MAX,
        },
{
    let mut acc: u64 = 0;
    let mut big: bool = false;
    let mut i: usize = 0;
    while i < v.len()
        invariant
            i <= v@.len(),
            all_digits(v@),
            !big ==> acc == spec_digits_val(v@.take(i as int)) && acc <= i32::MAX,
            big ==> spec_digits_val(v@.take(i as int)) > i32::MAX,
        decreases v@.len() - i,
    {
        let c = v[i];
        proof {
            assert(v@.take(i + 1 as int).drop_last() =~= v@.take(i as int));
            assert(v@.take(i + 1 as int).last() == v@[i as int]);
        }
        if !big {
            let d: u32 = c as u32 - 48;
            let next: u64 = acc * 10 + d as u64;
            proof {
                lemma_digits_val_grows(v@.take(i + 1 as int));
            }
            if next > i32::MAX as u64 {
                big = true;
            } else {
                acc = next;
            }
            if big {
                acc = 0;
            }
        } else {
            proof {
                lemma_digits_val_grows(v@.take(i + 1 as int));
            }
        }
        i = i + 1;
    }
    proof {
        assert(v@.take(v@.len() as int) =~= v@);
    }
    if big {
        None
    } else {
        Some(acc)
    }
}

/// A digit run is at least as large as the value of its prefix without the
/// last digit.
proof fn lemma_digits_val_grows(s: Seq<char>)
    requires
        s.len() > 0,
    ensures
        spec_digits_val(s) >= spec_digits_val(s.drop_last()),
{
}

/// The descriptor number a token stands for, if any.
pub fn token_fd(v: &Vec<char>) -> (r: Option<i32>)
    ensures
        match r {
            Some(n) => spec_token_fd(v@) == Some(n as int),
            None => spec_token_fd(v@) is None,
        },
{
    if v.len() == 0 {
        return None;
    }
    if v[0] == '+' {
        if v.len() == 1 {
            return None;
        }
        let mut i: usize = 1;
        while i < v.len()
            invariant
                1 <= i <= v@.len(),
                v@[0] == '+',
                forall|j: int| 1 <= j < i ==> spec_is_digit(#[trigger] v@[j]),
            decreases v@.len() - i,
        {
            if !is_digit(v[i]) {
                assert(v@.drop_first()[i - 1] == v@[i as int]);
                assert(!all_digits(v@.drop_first()));
                return None;
            }
            i = i + 1;
        }
        proof {
            assert forall|j: int| 0 <= j < v@.drop_first().len() implies spec_is_digit(
                #[trigger] v@.drop_first()[j],
            ) by {
                assert(v@.drop_first()[j] == v@[j + 1]);
            }
            assert(v@.drop_first() =~= v@.skip(1));
        }
        match digits_val_bounded(v, 1, i32::MAX as u64) {
            Some(n) => Some(n as i32),
            None => None,
        }
    } else {
        assert(v@[0] != '+');
        let mut i: usize = 0;
        while i < v.len()
            invariant
                i <= v@.len(),
                v@[0] != '+',
                forall|j: int| 0 <= j < i ==> spec_is_digit(#[trigger] v@[j]),
            decreases v@.len() - i,
        {
            if !is_digit(v[i]) {
                assert(!all_digits(v@));
                return None;
            }
            i = i + 1;
        }
        assert(all_digits(v@));
        match digits_val_exec(v) {
            Some(n) => Some(n as i32),
            None => None,
        }
    }
}

/// How `exit` reads its argument, after `i32` parsing in Rust: an optional
/// sign followed by at least one digit, with the value in range.
pub open spec fn spec_parse_i32(s: Seq<char>) -> Option<int> {
    if s.len() > 0 && (s[0] == '+' || s[0] == '-') {
        let d = s.drop_first();
        if d.len() > 0 && all_digits(d) {
            if s[0] == '-' {
                if spec_digits_val(d) <= 0x8000_0000 {
                    Some(-(spec_digits_val(d) as int))
                } else {
                    None
                }
            } else {
                if spec_digits_val(d) <= i32::MAX {
                    Some(spec_digits_val(d) as int)
                } else {
                    None
                }
            }
        } else {
            None
        }
    } else {
        spec_token_fd(s)
    }
}

/// Evaluates an unsigned digit run, reporting values beyond `bound` as `None`.
fn digits_val_bounded(v: &Vec<char>, from: usize, bound: u64) -> (r: Option<u64>)
    requires
        from <= v@.len(),
        all_digits(v@.skip(from as int)),
        bound <= 0x8000_0000,
    ensures
        match r {
            Some(n) => spec_digits_val(v@.skip(from as int)) <= bound && n == spec_digits_val(
                v@.skip(from as int),
            ),
            None => spec_digits_val(v@.skip(from as int)) > bound,
        },
{
    let ghost s = v@.skip(from as int);
    let mut acc: u64 = 0;
    let mut big: bool = false;
    let mut i: usize = from;
    while i < v.len()
        invariant
            from <= i <= v@.len(),
            s == v@.skip(from as int),
            all_digits(s),
            bound <= 0x8000_0000,
            !big ==> acc == spec_digits_val(s.take(i - from)) && acc <= bound,
            big ==> spec_digits_val(s.take(i - from)) > bound,
        decreases v@.len() - i,
    {
        let c = v[i];
        proof {
            assert(s.take(i + 1 - from).drop_last() =~= s.take(i - from));
            assert(s.take(i + 1 - from).last() == s[i - from]);
            assert(s[i - from] == v@[i as int]);
            lemma_digits_val_grows(s.take(i + 1 - from));
        }
        if !big {
            let d: u32 = c as u32 - 48;
            let next: u64 = acc * 10 + d as u64;
            if next > bound {
                big = true;
                acc = 0;
            } else {
                acc = next;
            }
        }
        i = i + 1;
    }
    proof {
        assert(s.take(v@.len() - from) =~= s);
    }
    if big {
        None
    } else {
        Some(acc)
    }
}

/// `i32` parsing of a token, matching `spec_parse_i32`.
pub fn parse_i32_chars(v: &Vec<char>) -> (r: Option<i32>)
    ensures
        match r {
            Some(n) => spec_parse_i32(v@) == Some(n as int),
            None => spec_parse_i32(v@) is None,
        },
{
    if v.len() == 0 {
        return None;
    }
    let c0 = v[0];
    if c0 == '+' || c0 == '-' {
        if v.len() == 1 {
            return None;
        }
        let mut i: usize = 1;
        while i < v.len()
            invariant
                1 <= i <= v@.len(),
                forall|j: int| 1 <= j < i ==> spec_is_digit(#[trigger] v@[j]),
            decreases v@.len() - i,
        {
            if !is_digit(v[i]) {
                assert(v@.drop_first()[i - 1] == v@[i as int]);
                assert(!all_digits(v@.drop_first()));
                return None;
            }
            i = i + 1;
        }
        proof {
            assert forall|j: int| 0 <= j < v@.drop_first().len() implies spec_is_digit(
                #[trigger] v@.drop_first()[j],
            ) by {
                assert(v@.drop_first()[j] == v@[j + 1]);
            }
            assert(v@.drop_first() =~= v@.skip(1));
        }
        if c0 == '-' {
            match digits_val_bounded(v, 1, 0x8000_0000) {
                Some(n) => {
                    if n == 0x8000_0000 {
                        Some(i32::MIN)
                    } else {
                        Some(-(n as i32))
                    }
                },
                None => None,
            }
        } else {
            match digits_val_bounded(v, 1, i32::MAX as u64) {
                Some(n) => Some(n as i32),
                None => None,
            }
        }
    } else {
        token_fd(v)
    }
}

/// Uppercase ASCII letters map onto their lowercase forms; everything else is
/// left alone.  Stated over code points so that no character needs to be
/// built in specifications.
pub open spec fn spec_lower_code(c: char) -> int {
    if 'A' <= c && c <= 'Z' {
        c as int + 32
    } else {
        c as int
    }
}

/// Whether two texts are equal up to ASCII case.
pub open spec fn spec_eq_ignore_ascii_case(a: Seq<char>, b: Seq<char>) -> bool {
    a.len() == b.len() && forall|i: int|
        0 <= i < a.len() ==> spec_lower_code(#[trigger] a[i]) == spec_lower_code(#[trigger] b[i])
}

/// Case-insensitive ASCII comparison of two strings.
pub fn str_eq_ignore_ascii_case(a: &str, b: &str) -> (r: bool)
    ensures
        r == spec_eq_ignore_ascii_case(a@, b@),
{
    let na: usize = a.unicode_len();
    let nb: usize = b.unicode_len();
    if na != nb {
        return false;
    }
    let mut i: usize = 0;
    while i < na
        invariant
            i <= na,
            na == a@.len(),
            na == b@.len(),
            forall|j: int| 0 <= j < i ==> spec_lower_code(#[trigger] a@[j]) == spec_lower_code(
                #[trigger] b@[j],
            ),
        decreases na - i,
    {
        let ca = a.get_char(i);
        let cb = b.get_char(i);
        let la: u32 = if 'A' <= ca && ca <= 'Z' {
            ca as u32 + 32
        } else {
            ca as u32
        };
        let lb: u32 = if 'A' <= cb && cb <= 'Z' {
            cb as u32 + 32
        } else {
            cb as u32
        };
        if la != lb {
            return false;
        }
        i = i + 1;
    }
    true
}

/// Equality of two character vectors.
pub fn chars_eq(a: &Vec<char>, b: &Vec<char>) -> (r: bool)
    ensures
        r == (a@ == b@),
{
    if a.len() != b.len() {
        proof {
            assert(a@ != b@);
        }
        return false;
    }
    let mut i: usize = 0;
    while i < a.len()
        invariant
            i <= a@.len(),
            a@.len() == b@.len(),
            forall|j: int| 0 <= j < i ==> a@[j] == b@[j],
        decreases a@.len() - i,
    {
        if a[i] != b[i] {
            return false;
        }
        i = i + 1;
    }
    proof {
        assert(a@ =~= b@);
    }
    true
}

/// Plain equality of two string slices.
pub fn str_eq(a: &str, b: &str) -> (r: bool)
    ensures
        r == (a@ == b@),
{
    let na: usize = a.unicode_len();
    let nb: usize = b.unicode_len();
    if na != nb {
        proof {
            assert(a@ != b@);
        }
        return false;
    }
    let mut i: usize = 0;
    while i < na
        invariant
            i <= na,
            na == a@.len(),
            na == b@.len(),
            forall|j: int| 0 <= j < i ==> a@[j] == b@[j],
        decreases na - i,
    {
        if a.get_char(i) != b.get_char(i) {
            return false;
        }
        i = i + 1;
    }
    proof {
        assert(a@ =~= b@);
    }
    true
}

} // verus!
